//! Downloading many videos at once, and the pages of one video.

use vstd::prelude::*;

use crate::decimal::{decimal_int, integer_text};
use crate::entity::VideoModel;
use crate::failure::{is_cancelled, is_paused, says_cancelled, says_paused, Failure};
use crate::text::{join, joined, same_text, texts};

verus! {

/// Two videos share the files that describe their series, or else their creator.
pub open spec fn same_owner(a: VideoModel, b: VideoModel) -> bool {
    match (a.season_id, b.season_id) {
        (Some(left), Some(right)) => left@ == right@,
        (None, None) => a.upper_id == b.upper_id,
        _ => false,
    }
}

fn have_same_owner(a: &VideoModel, b: &VideoModel) -> (answer: bool)
    ensures
        answer == same_owner(*a, *b),
{
    match (&a.season_id, &b.season_id) {
        (Some(left), Some(right)) => same_text(left.as_str(), right.as_str()),
        (None, None) => a.upper_id == b.upper_id,
        _ => false,
    }
}

/// For each video, whether its download also covers the files of its owner: that is so for the
/// first video of each owner.
pub fn assign_owner_files(videos: &Vec<VideoModel>) -> (assigned: Vec<bool>)
    ensures
        assigned@.len() == videos@.len(),
        forall|i: int|
            0 <= i < videos@.len() ==> (#[trigger] assigned@[i] <==> forall|j: int|
                0 <= j < i ==> !same_owner(#[trigger] videos@[j], videos@[i])),
{
    let mut assigned: Vec<bool> = Vec::new();
    let mut k: usize = 0;
    while k < videos.len()
        invariant
            k <= videos@.len(),
            assigned@.len() == k,
            forall|i: int|
                0 <= i < k ==> (#[trigger] assigned@[i] <==> forall|j: int|
                    0 <= j < i ==> !same_owner(#[trigger] videos@[j], videos@[i])),
        decreases videos@.len() - k,
    {
        let mut first: bool = true;
        let mut j: usize = 0;
        while j < k
            invariant
                j <= k,
                k < videos@.len(),
                first <==> forall|i: int|
                    0 <= i < j ==> !same_owner(#[trigger] videos@[i], videos@[k as int]),
            decreases k - j,
        {
            if have_same_owner(&videos[j], &videos[k]) {
                first = false;
            }
            j += 1;
        }
        assigned.push(first);
        k += 1;
    }
    assigned
}

/// The files of every owner are covered by exactly one download.
pub proof fn each_owner_is_covered_once(videos: Seq<VideoModel>, assigned: Seq<bool>, i: int)
    requires
        assigned.len() == videos.len(),
        forall|k: int|
            0 <= k < videos.len() ==> (#[trigger] assigned[k] <==> forall|j: int|
                0 <= j < k ==> !same_owner(#[trigger] videos[j], videos[k])),
        0 <= i < videos.len(),
    ensures
        exists|k: int|
            0 <= k < videos.len() && #[trigger] assigned[k] && same_owner(videos[k], videos[i])
                && forall|j: int|
                0 <= j < videos.len() && #[trigger] assigned[j] && same_owner(videos[j], videos[i])
                    ==> j == k,
    decreases i,
{
    if assigned[i] {
        assert forall|j: int|
            0 <= j < videos.len() && #[trigger] assigned[j] && same_owner(
                videos[j],
                videos[i],
            ) implies j == i by {
            if j > i {
                assert(same_owner(videos[i], videos[j]));
            }
            if j < i {
                assert(!same_owner(videos[j], videos[i]));
            }
        }
    } else {
        let j = choose|j: int| 0 <= j < i && same_owner(#[trigger] videos[j], videos[i]);
        each_owner_is_covered_once(videos, assigned, j);
        let k = choose|k: int|
            0 <= k < videos.len() && #[trigger] assigned[k] && same_owner(videos[k], videos[j])
                && forall|m: int|
                0 <= m < videos.len() && #[trigger] assigned[m] && same_owner(videos[m], videos[j])
                    ==> m == k;
        assert(same_owner(videos[k], videos[i]));
    }
}

/// What is to be done with the outcome of one download.
#[derive(Debug, Clone, Copy, PartialEq, Eq, Structural)]
pub enum Reaction {
    /// Record the result.
    Save,
    /// Do nothing.
    Ignore,
    /// The user paused the task: go on with the others.
    Paused,
    /// Cancel all the other downloads at once.
    Cancel,
    /// Report the failure and go on.
    Report,
}

/// The reaction to the outcome of one download: `None` means that it succeeded. `aborted` says
/// whether the others were cancelled before, `paused` whether tasks are paused.
pub open spec fn reaction(aborted: bool, outcome: Option<Failure>, paused: bool) -> Reaction {
    match outcome {
        None => if aborted {
            Reaction::Ignore
        } else {
            Reaction::Save
        },
        Some(failure) => if says_paused(failure.message@, paused) {
            Reaction::Paused
        } else if failure.abort || says_cancelled(failure.message@) {
            if aborted {
                Reaction::Ignore
            } else {
                Reaction::Cancel
            }
        } else {
            Reaction::Report
        },
    }
}

/// A number of downloads that run at once.
#[derive(Debug)]
pub struct VideoBatch {
    aborted: bool,
}

impl VideoBatch {
    /// The other downloads were cancelled.
    pub closed spec fn was_aborted(self) -> bool {
        self.aborted
    }

    /// The downloads before any of them is done.
    pub fn new() -> (batch: Self)
        ensures
            !batch.was_aborted(),
    {
        VideoBatch { aborted: false }
    }

    /// Whether the downloads were cancelled, so that the scan has to stop.
    pub fn is_aborted(&self) -> (answer: bool)
        ensures
            answer == self.was_aborted(),
    {
        self.aborted
    }

    /// Takes the outcome of one download: `None` means that it succeeded.
    pub fn react(&mut self, outcome: &Option<Failure>, paused: bool) -> (action: Reaction)
        ensures
            action == reaction(old(self).was_aborted(), *outcome, paused),
            final(self).was_aborted() == (old(self).was_aborted() || action == Reaction::Cancel),
    {
        match outcome {
            None => if self.aborted {
                Reaction::Ignore
            } else {
                Reaction::Save
            },
            Some(failure) => {
                if is_paused(failure.message.as_str(), paused) {
                    Reaction::Paused
                } else if failure.abort || is_cancelled(failure.message.as_str()) {
                    if self.aborted {
                        Reaction::Ignore
                    } else {
                        self.aborted = true;
                        Reaction::Cancel
                    }
                } else {
                    Reaction::Report
                }
            },
        }
    }
}

/// The outcome of a download, and whether tasks were paused when it came.
pub struct Arrival {
    pub outcome: Option<Failure>,
    pub paused: bool,
}

/// The downloads are aborted after the first `count` of these outcomes.
pub open spec fn aborted_after(arrivals: Seq<Arrival>, count: nat) -> bool
    decreases count,
{
    count > 0 && {
        let before = aborted_after(arrivals, (count - 1) as nat);
        let arrival = arrivals[count - 1];
        before || reaction(before, arrival.outcome, arrival.paused) == Reaction::Cancel
    }
}

/// The reaction to the outcome that comes at position `at`.
pub open spec fn reaction_to(arrivals: Seq<Arrival>, at: nat) -> Reaction {
    reaction(aborted_after(arrivals, at), arrivals[at as int].outcome, arrivals[at as int].paused)
}

/// Once the downloads are aborted they stay so.
proof fn abort_lasts(arrivals: Seq<Arrival>, from: nat, to: nat)
    requires
        from <= to,
        aborted_after(arrivals, from),
    ensures
        aborted_after(arrivals, to),
    decreases to - from,
{
    if from < to {
        abort_lasts(arrivals, from, (to - 1) as nat);
    }
}

/// The other downloads are cancelled no more than once, and nothing that comes in later is
/// recorded.
pub proof fn cancel_is_final(arrivals: Seq<Arrival>, first: nat, later: nat)
    requires
        first < later < arrivals.len(),
        reaction_to(arrivals, first) == Reaction::Cancel,
    ensures
        reaction_to(arrivals, later) != Reaction::Cancel,
        reaction_to(arrivals, later) != Reaction::Save,
{
    assert(aborted_after(arrivals, first + 1));
    abort_lasts(arrivals, first + 1, later);
}

/// A pause never cancels the other downloads: they are cancelled exactly when the first failure
/// comes that is no pause and that is an abort or a cancellation.
pub proof fn abort_has_a_cause(arrivals: Seq<Arrival>, count: nat)
    requires
        count <= arrivals.len(),
    ensures
        aborted_after(arrivals, count) <==> exists|i: int|
            0 <= i < count && is_cause_of_abort(#[trigger] arrivals[i]),
    decreases count,
{
    if count > 0 {
        abort_has_a_cause(arrivals, (count - 1) as nat);
        let last = arrivals[count - 1];
        if is_cause_of_abort(last) {
            assert(aborted_after(arrivals, count));
        } else if aborted_after(arrivals, count) {
            assert(aborted_after(arrivals, (count - 1) as nat));
        }
    }
}

/// The outcome makes all downloads stop.
pub open spec fn is_cause_of_abort(arrival: Arrival) -> bool {
    match arrival.outcome {
        None => false,
        Some(failure) => !says_paused(failure.message@, arrival.paused) && (failure.abort
            || says_cancelled(failure.message@)),
    }
}

/// The outcome of downloading one page.
#[derive(Debug, Clone)]
pub enum PageOutcome {
    /// The page was processed; the states of its five tasks came out so.
    Processed([u32; 5]),
    /// The page failed as a whole.
    Failed(Failure),
}

/// What is to be done with the outcome of one page.
#[derive(Debug, Clone, Copy, PartialEq, Eq, Structural)]
pub enum PageReaction {
    /// Record the page.
    Save,
    /// Do nothing.
    Ignore,
    /// Cancel the downloads of the other pages at once.
    Cancel,
    /// Report the failure and go on.
    Report,
}

/// How the download of all pages of a video ended.
#[derive(Debug, Clone)]
pub enum PagesEnd {
    /// All tasks of all pages succeeded.
    Succeeded,
    /// The platform refuses further requests.
    Aborted,
    /// Every task of every page succeeded or used up its retries, and some did the latter:
    /// `status` is the least state of all.
    Exhausted { status: u32, details: String },
    /// A task of some page is not done: `status` is the least state of all.
    Unfinished { status: u32, details: String },
    /// Some page failed as a whole.
    Broken { details: String },
}

/// The smaller of two states.
pub open spec fn least(a: u32, b: u32) -> u32 {
    if b < a {
        b
    } else {
        a
    }
}

/// The least of a state and the first `count` of five others.
pub open spec fn least_of(status: u32, states: Seq<u32>, count: nat) -> u32
    decreases count,
{
    if count == 0 {
        status
    } else {
        least(least_of(status, states, (count - 1) as nat), states[count - 1])
    }
}

/// What is kept of a page that failed.
pub open spec fn failed_page(pid: i32, name: Seq<char>, message: Seq<char>) -> Seq<char> {
    "第"@ + decimal_int(pid as int) + "页 "@ + name + ": "@ + message
}

/// What is known while the pages of a video are downloaded.
pub struct PagesView {
    pub aborted: bool,
    pub status: u32,
    pub failed: Seq<Seq<char>>,
}

/// The reaction to the outcome of one page.
pub open spec fn page_reaction(state: PagesView, outcome: PageOutcome, paused: bool) -> PageReaction {
    match outcome {
        PageOutcome::Processed(_) => if state.aborted {
            PageReaction::Ignore
        } else {
            PageReaction::Save
        },
        PageOutcome::Failed(failure) => if says_paused(failure.message@, paused) {
            PageReaction::Ignore
        } else if failure.abort {
            if state.aborted {
                PageReaction::Ignore
            } else {
                PageReaction::Cancel
            }
        } else {
            PageReaction::Report
        },
    }
}

/// What is known after the outcome of one more page.
pub open spec fn pages_after(
    state: PagesView,
    pid: i32,
    name: Seq<char>,
    outcome: PageOutcome,
    paused: bool,
) -> PagesView {
    match (page_reaction(state, outcome, paused), outcome) {
        (PageReaction::Save, PageOutcome::Processed(states)) => PagesView {
            status: least_of(state.status, states@, 5),
            ..state
        },
        (PageReaction::Cancel, _) => PagesView { aborted: true, ..state },
        (PageReaction::Report, PageOutcome::Failed(failure)) => PagesView {
            failed: state.failed.push(failed_page(pid, name, failure.message@)),
            ..state
        },
        _ => state,
    }
}

/// What is said of pages that are not done.
pub open spec fn page_details(failed: Seq<Seq<char>>) -> Seq<char> {
    if failed.len() > 0 {
        "失败的分页: "@ + joined(failed, "; "@)
    } else {
        "请检查网络连接、文件系统权限或重试下载。"@
    }
}

/// No page failed as a whole, and the least state of all tasks is that of one that used up its
/// retries. `success` and `exhausted` are the states of a task that succeeded, and of one that used
/// up its retries.
pub open spec fn is_exhausted(state: PagesView, success: u32, exhausted: u32) -> bool {
    state.failed.len() == 0 && exhausted <= state.status < success
}

/// How the download of all pages of a video went.
#[derive(Debug, Clone, Copy, PartialEq, Eq, Structural)]
pub enum PagesVerdict {
    Succeeded,
    Aborted,
    Exhausted,
    Unfinished,
    Broken,
}

/// How the download of all pages of a video went.
pub open spec fn verdict_on(state: PagesView, success: u32, exhausted: u32) -> PagesVerdict {
    if state.aborted {
        PagesVerdict::Aborted
    } else if state.status == success {
        if state.failed.len() == 0 {
            PagesVerdict::Succeeded
        } else {
            PagesVerdict::Broken
        }
    } else if is_exhausted(state, success, exhausted) {
        PagesVerdict::Exhausted
    } else {
        PagesVerdict::Unfinished
    }
}

/// The pages of one video that are downloaded at once.
#[derive(Debug)]
pub struct PageBatch {
    aborted: bool,
    status_ok: u32,
    status_exhausted: u32,
    status: u32,
    failed: Vec<String>,
}

impl View for PageBatch {
    type V = PagesView;

    closed spec fn view(&self) -> PagesView {
        PagesView { aborted: self.aborted, status: self.status, failed: texts(self.failed@) }
    }
}

impl PageBatch {
    /// The state of a task that succeeded.
    pub closed spec fn success(self) -> u32 {
        self.status_ok
    }

    /// The state of a task that used up its retries. A state between it and that of success means
    /// the same.
    pub closed spec fn exhausted(self) -> u32 {
        self.status_exhausted
    }

    /// The pages before any of them is done. `status_ok` is the state of a task that succeeded, and
    /// `status_exhausted` that of one that used up its retries.
    pub fn new(status_ok: u32, status_exhausted: u32) -> (batch: Self)
        ensures
            batch.success() == status_ok,
            batch.exhausted() == status_exhausted,
            batch@ == (PagesView { aborted: false, status: status_ok, failed: Seq::empty() }),
    {
        let failed: Vec<String> = Vec::new();
        assert(texts(failed@) =~= Seq::empty());
        PageBatch { aborted: false, status_ok, status_exhausted, status: status_ok, failed }
    }

    /// Takes the outcome of one page.
    pub fn react(&mut self, pid: i32, name: &str, outcome: &PageOutcome, paused: bool) -> (action:
        PageReaction)
        ensures
            action == page_reaction(old(self)@, *outcome, paused),
            final(self)@ == pages_after(old(self)@, pid, name@, *outcome, paused),
            final(self).success() == old(self).success(),
            final(self).exhausted() == old(self).exhausted(),
    {
        match outcome {
            PageOutcome::Processed(states) => {
                if self.aborted {
                    return PageReaction::Ignore;
                }
                let mut status: u32 = self.status;
                let mut k: usize = 0;
                while k < 5
                    invariant
                        k <= 5,
                        status == least_of(self.status, states@, k as nat),
                    decreases 5 - k,
                {
                    if states[k] < status {
                        status = states[k];
                    }
                    k += 1;
                }
                self.status = status;
                PageReaction::Save
            },
            PageOutcome::Failed(failure) => {
                if is_paused(failure.message.as_str(), paused) {
                    return PageReaction::Ignore;
                }
                if failure.abort {
                    if self.aborted {
                        return PageReaction::Ignore;
                    }
                    self.aborted = true;
                    return PageReaction::Cancel;
                }
                let mut entry = "第".to_owned();
                entry.append(integer_text(pid as i64).as_str());
                entry.append("页 ");
                entry.append(name);
                entry.append(": ");
                entry.append(failure.message.as_str());
                let ghost before = texts(self.failed@);
                self.failed.push(entry);
                assert(texts(self.failed@) =~= before.push(
                    failed_page(pid, name@, failure.message@),
                ));
                PageReaction::Report
            },
        }
    }

    /// How the download of the pages ended.
    ///
    /// It succeeded exactly where the platform did not refuse, no page failed as a whole, and the
    /// least state of all tasks is that of success. Where that state is one of used up retries,
    /// there is nothing left to try.
    pub fn conclude(&self) -> (end: PagesEnd)
        ensures
            ({
                let verdict = verdict_on(self@, self.success(), self.exhausted());
                &&& end is Succeeded <==> verdict == PagesVerdict::Succeeded
                &&& end is Aborted <==> verdict == PagesVerdict::Aborted
                &&& end is Exhausted <==> verdict == PagesVerdict::Exhausted
                &&& end is Unfinished <==> verdict == PagesVerdict::Unfinished
                &&& end is Broken <==> verdict == PagesVerdict::Broken
            }),
            end is Aborted <==> self@.aborted,
            end is Exhausted <==> !self@.aborted && is_exhausted(
                self@,
                self.success(),
                self.exhausted(),
            ),
            end is Unfinished <==> !self@.aborted && self@.status != self.success()
                && !is_exhausted(self@, self.success(), self.exhausted()),
            end is Broken <==> !self@.aborted && self@.status == self.success()
                && self@.failed.len() > 0,
            end is Succeeded <==> !self@.aborted && self@.status == self.success()
                && self@.failed.len() == 0,
            end matches PagesEnd::Exhausted { status, details } ==> status == self@.status
                && details@ == page_details(self@.failed),
            end matches PagesEnd::Unfinished { status, details } ==> status == self@.status
                && details@ == page_details(self@.failed),
            end matches PagesEnd::Broken { details } ==> details@ == page_details(self@.failed),
    {
        if self.aborted {
            return PagesEnd::Aborted;
        }
        if self.status == self.status_ok && self.failed.len() == 0 {
            return PagesEnd::Succeeded;
        }
        let details = if self.failed.len() > 0 {
            let mut details = "失败的分页: ".to_owned();
            details.append(join(&self.failed, "; ").as_str());
            details
        } else {
            "请检查网络连接、文件系统权限或重试下载。".to_owned()
        };
        if self.status == self.status_ok {
            PagesEnd::Broken { details }
        } else if self.failed.len() == 0 && self.status_exhausted <= self.status && self.status
            < self.status_ok {
            PagesEnd::Exhausted { status: self.status, details }
        } else {
            PagesEnd::Unfinished { status: self.status, details }
        }
    }
}

/// The outcome of one page as it comes in.
pub struct PageArrival {
    pub pid: i32,
    pub name: Seq<char>,
    pub outcome: PageOutcome,
    pub paused: bool,
}

/// What is known after the pages that came in.
pub open spec fn pages_known(status_ok: u32, arrivals: Seq<PageArrival>) -> PagesView
    decreases arrivals.len(),
{
    if arrivals.len() == 0 {
        PagesView { aborted: false, status: status_ok, failed: Seq::empty() }
    } else {
        let last = arrivals.last();
        pages_after(
            pages_known(status_ok, arrivals.drop_last()),
            last.pid,
            last.name,
            last.outcome,
            last.paused,
        )
    }
}

/// All five tasks of the page have at least the given state, unless the user paused it.
pub open spec fn page_reaches(state: u32, arrival: PageArrival) -> bool {
    match arrival.outcome {
        PageOutcome::Processed(states) => forall|k: int|
            0 <= k < 5 ==> #[trigger] states@[k] >= state,
        PageOutcome::Failed(failure) => says_paused(failure.message@, arrival.paused),
    }
}

proof fn least_of_bounds(status: u32, states: Seq<u32>, count: nat)
    requires
        count <= states.len(),
    ensures
        least_of(status, states, count) <= status,
        forall|k: int| 0 <= k < count ==> least_of(status, states, count) <= #[trigger] states[k],
        least_of(status, states, count) == status || exists|k: int|
            0 <= k < count && least_of(status, states, count) == #[trigger] states[k],
    decreases count,
{
    if count > 0 {
        least_of_bounds(status, states, (count - 1) as nat);
        let before = least_of(status, states, (count - 1) as nat);
        let after = least_of(status, states, count);
        assert(after == before || after == states[count - 1]);
    }
}

proof fn pages_reach_together(status_ok: u32, state: u32, arrivals: Seq<PageArrival>)
    requires
        state <= status_ok,
    ensures
        ({
            let known = pages_known(status_ok, arrivals);
            (!known.aborted && known.status >= state && known.failed.len() == 0) <==> forall|i: int|
                0 <= i < arrivals.len() ==> page_reaches(state, #[trigger] arrivals[i])
        }),
        pages_known(status_ok, arrivals).status <= status_ok,
    decreases arrivals.len(),
{
    if arrivals.len() > 0 {
        let front = arrivals.drop_last();
        let last = arrivals.last();
        pages_reach_together(status_ok, state, front);
        let before = pages_known(status_ok, front);
        let after = pages_known(status_ok, arrivals);
        if let PageOutcome::Processed(states) = last.outcome {
            least_of_bounds(before.status, states@, 5);
        }
        assert forall|i: int| 0 <= i < front.len() implies front[i] == #[trigger] arrivals[i] by {}
        if !after.aborted && after.status >= state && after.failed.len() == 0 {
            assert(!before.aborted && before.status >= state && before.failed.len() == 0);
            assert(page_reaches(state, last));
            assert forall|i: int| 0 <= i < arrivals.len() implies page_reaches(
                state,
                #[trigger] arrivals[i],
            ) by {
                if i < front.len() {
                    assert(page_reaches(state, front[i]));
                }
            }
        } else if forall|i: int|
            0 <= i < arrivals.len() ==> page_reaches(state, #[trigger] arrivals[i]) {
            assert forall|i: int| 0 <= i < front.len() implies page_reaches(
                state,
                #[trigger] front[i],
            ) by {
                assert(page_reaches(state, arrivals[i]));
            }
            assert(page_reaches(state, arrivals[arrivals.len() - 1]));
        }
    }
}

/// The download of the pages succeeds exactly where every task of every page did, apart from pages
/// that the user paused. The least state is never above that of success.
pub proof fn pages_succeed_together(status_ok: u32, arrivals: Seq<PageArrival>)
    ensures
        ({
            let known = pages_known(status_ok, arrivals);
            (!known.aborted && known.status == status_ok && known.failed.len() == 0)
                <==> forall|i: int|
                0 <= i < arrivals.len() ==> page_reaches(status_ok, #[trigger] arrivals[i])
        }),
        pages_known(status_ok, arrivals).status <= status_ok,
{
    pages_reach_together(status_ok, status_ok, arrivals);
}

/// The download of the pages ends without an error exactly where every task of every page succeeded
/// or used up its retries, apart from pages that the user paused.
pub proof fn pages_end_without_error(status_ok: u32, exhausted: u32, arrivals: Seq<PageArrival>)
    requires
        exhausted <= status_ok,
    ensures
        ({
            let known = pages_known(status_ok, arrivals);
            let succeeded = known.status == status_ok && known.failed.len() == 0;
            (!known.aborted && (succeeded || is_exhausted(known, status_ok, exhausted)))
                <==> forall|i: int|
                0 <= i < arrivals.len() ==> page_reaches(exhausted, #[trigger] arrivals[i])
        }),
{
    pages_reach_together(status_ok, exhausted, arrivals);
}

/// Videos of the same series belong together whoever made them, and videos outside of a series by
/// their creator; a video of a series never belongs together with one outside. Belonging together
/// is mutual, and carries on from one video to the next.
pub proof fn owners_are_told_apart(a: VideoModel, b: VideoModel, c: VideoModel)
    ensures
        a.season_id is Some && b.season_id is Some ==> (same_owner(a, b) <==> a.season_id->0@
            == b.season_id->0@),
        a.season_id is None && b.season_id is None ==> (same_owner(a, b) <==> a.upper_id
            == b.upper_id),
        (a.season_id is Some) != (b.season_id is Some) ==> !same_owner(a, b),
        same_owner(a, a),
        same_owner(a, b) == same_owner(b, a),
        same_owner(a, b) && same_owner(b, c) ==> same_owner(a, c),
{
}

/// Every outcome of a download is answered in the one way that fits it. What succeeded is recorded
/// unless all downloads were stopped before. A pause is never an error, and stops nothing. A failure
/// that stops everything does so once. Any other failure is reported, even when all downloads were
/// stopped before.
pub proof fn every_outcome_is_answered(aborted: bool, outcome: Option<Failure>, paused: bool)
    ensures
        reaction(aborted, outcome, paused) == Reaction::Save <==> outcome is None && !aborted,
        outcome is None && aborted ==> reaction(aborted, outcome, paused) == Reaction::Ignore,
        outcome matches Some(failure) ==> {
            let stops = failure.abort || says_cancelled(failure.message@);
            let action = reaction(aborted, outcome, paused);
            &&& action == Reaction::Paused <==> says_paused(failure.message@, paused)
            &&& action == Reaction::Cancel <==> !says_paused(failure.message@, paused) && stops
                && !aborted
            &&& action == Reaction::Ignore <==> !says_paused(failure.message@, paused) && stops
                && aborted
            &&& action == Reaction::Report <==> !says_paused(failure.message@, paused) && !stops
        },
{
}

/// Every outcome of a page is answered in the one way that fits it. A page that was processed is
/// recorded unless the others were stopped before; a pause is passed over; only a refusal of the
/// platform stops the other pages, and only once; any other failure is reported.
pub proof fn every_page_is_answered(state: PagesView, outcome: PageOutcome, paused: bool)
    ensures
        outcome is Processed ==> page_reaction(state, outcome, paused) == if state.aborted {
            PageReaction::Ignore
        } else {
            PageReaction::Save
        },
        outcome matches PageOutcome::Failed(failure) ==> {
            let action = page_reaction(state, outcome, paused);
            &&& says_paused(failure.message@, paused) ==> action == PageReaction::Ignore
            &&& action == PageReaction::Cancel <==> !says_paused(failure.message@, paused)
                && failure.abort && !state.aborted
            &&& action == PageReaction::Report <==> !says_paused(failure.message@, paused)
                && !failure.abort
            &&& action != PageReaction::Save
        },
{
}

/// What is known of the pages grows with each of them: a recorded page lowers the least state to that
/// of its worst task and no further, a reported page is kept with its number, its name and its
/// message, and nothing that was known is lost.
pub proof fn pages_are_remembered(
    state: PagesView,
    pid: i32,
    name: Seq<char>,
    outcome: PageOutcome,
    paused: bool,
)
    ensures
        ({
            let after = pages_after(state, pid, name, outcome, paused);
            &&& state.aborted ==> after.aborted
            &&& after.status <= state.status
            &&& outcome matches PageOutcome::Processed(states) ==> {
                &&& after.failed == state.failed
                &&& after.aborted == state.aborted
                &&& !state.aborted ==> {
                    &&& forall|k: int| 0 <= k < 5 ==> after.status <= #[trigger] states@[k]
                    &&& after.status == state.status || exists|k: int|
                        0 <= k < 5 && after.status == #[trigger] states@[k]
                }
                &&& state.aborted ==> after.status == state.status
            }
            &&& outcome matches PageOutcome::Failed(failure) ==> {
                &&& after.status == state.status
                &&& after.aborted <==> state.aborted || (failure.abort && !says_paused(
                    failure.message@,
                    paused,
                ))
                &&& after.failed == if !failure.abort && !says_paused(failure.message@, paused) {
                    state.failed.push(
                        "第"@ + decimal_int(pid as int) + "页 "@ + name + ": "@ + failure.message@,
                    )
                } else {
                    state.failed
                }
            }
        }),
{
    if let PageOutcome::Processed(states) = outcome {
        least_of_bounds(state.status, states@, 5);
    }
}

/// What is said of pages that are not done names each page that failed, or gives general advice where
/// none did.
pub proof fn failed_pages_are_named(failed: Seq<Seq<char>>, last: Seq<char>)
    ensures
        page_details(Seq::empty()) == "请检查网络连接、文件系统权限或重试下载。"@,
        page_details(seq![last]) == "失败的分页: "@ + last,
        failed.len() > 0 ==> page_details(failed.push(last)) == page_details(failed) + "; "@ + last,
{
    assert(seq![last][0] == last);
    if failed.len() > 0 {
        assert(failed.push(last).drop_last() =~= failed);
        assert(page_details(failed.push(last)) =~= page_details(failed) + "; "@ + last);
    }
}

/// Retries are used up exactly where no page failed as a whole and the least state lies from that of
/// used up retries up to below that of success.
pub proof fn used_up_retries_are_told_apart(state: PagesView, success: u32, exhausted: u32)
    ensures
        state.failed.len() > 0 ==> !is_exhausted(state, success, exhausted),
        state.status >= success || state.status < exhausted ==> !is_exhausted(
            state,
            success,
            exhausted,
        ),
        state.failed.len() == 0 && exhausted <= state.status && state.status < success
            ==> is_exhausted(state, success, exhausted),
{
}

proof fn refusals_are_remembered(status_ok: u32, arrivals: Seq<PageArrival>)
    ensures
        pages_known(status_ok, arrivals).aborted <==> exists|i: int|
            0 <= i < arrivals.len() && is_refused(#[trigger] arrivals[i]),
    decreases arrivals.len(),
{
    if arrivals.len() > 0 {
        let front = arrivals.drop_last();
        refusals_are_remembered(status_ok, front);
        if exists|i: int| 0 <= i < front.len() && is_refused(#[trigger] front[i]) {
            let i = choose|i: int| 0 <= i < front.len() && is_refused(#[trigger] front[i]);
            assert(is_refused(arrivals[i]));
        }
        if is_refused(arrivals.last()) {
            assert(is_refused(arrivals[arrivals.len() - 1]));
        }
        if exists|i: int| 0 <= i < arrivals.len() && is_refused(#[trigger] arrivals[i]) {
            let i = choose|i: int| 0 <= i < arrivals.len() && is_refused(#[trigger] arrivals[i]);
            if i < front.len() {
                assert(is_refused(front[i]));
            }
        }
    }
}

/// The platform refused the page.
pub open spec fn is_refused(arrival: PageArrival) -> bool {
    arrival.outcome matches PageOutcome::Failed(failure) && failure.abort && !says_paused(
        failure.message@,
        arrival.paused,
    )
}

/// The download of the pages is judged by all of them together. It is aborted exactly if the platform
/// refused one. Otherwise it succeeded exactly if every task of every page did, and there is nothing
/// left to try exactly if every task that did not has used up its retries; pages that the user paused
/// do not count. In every other case there is work left.
pub proof fn pages_are_judged_together(status_ok: u32, exhausted: u32, arrivals: Seq<PageArrival>)
    requires
        exhausted <= status_ok,
    ensures
        ({
            let verdict = verdict_on(pages_known(status_ok, arrivals), status_ok, exhausted);
            let all_succeeded = forall|i: int|
                0 <= i < arrivals.len() ==> page_reaches(status_ok, #[trigger] arrivals[i]);
            let all_ended = forall|i: int|
                0 <= i < arrivals.len() ==> page_reaches(exhausted, #[trigger] arrivals[i]);
            &&& verdict == PagesVerdict::Aborted <==> exists|i: int|
                0 <= i < arrivals.len() && is_refused(#[trigger] arrivals[i])
            &&& verdict == PagesVerdict::Succeeded <==> all_succeeded
            &&& verdict == PagesVerdict::Exhausted <==> all_ended && !all_succeeded
        }),
{
    refusals_are_remembered(status_ok, arrivals);
    pages_succeed_together(status_ok, arrivals);
    pages_end_without_error(status_ok, exhausted, arrivals);
}

/// Where work is left, pages that failed as a whole are told apart from tasks that are not done: the
/// former alone are in the way exactly if all other tasks succeeded.
pub proof fn failed_pages_are_told_apart(state: PagesView, success: u32, exhausted: u32)
    requires
        !state.aborted,
        state.failed.len() > 0,
    ensures
        verdict_on(state, success, exhausted) == PagesVerdict::Broken <==> state.status == success,
        verdict_on(state, success, exhausted) == PagesVerdict::Unfinished <==> state.status
            != success,
{
}

}
