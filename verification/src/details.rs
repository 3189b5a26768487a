//! Completing the records of videos, and telling whom a joint video belongs to.

use vstd::prelude::*;

use crate::decimal::{decimal_int, integer_text};
use crate::entity::{StaffInfo, Submission};
use crate::failure::{is_cancelled, says_cancelled, ErrorType, Failure};
use crate::fill::first_cid;

verus! {

/// What is to be done about a video whose details could not be fetched.
#[derive(Debug, Clone, Copy, PartialEq, Eq, Structural)]
pub enum DetailsReaction {
    /// The platform refuses further requests: stop the whole run.
    Abort,
    /// The video does not exist any more: record that.
    Invalidate,
    /// Leave the video as it is.
    Leave,
}

/// The code with which the platform says that a video does not exist.
pub const CODE_NOT_FOUND: i64 = -404;

/// What is to be done about a video whose details could not be fetched.
pub open spec fn details_reaction(kind: ErrorType, request_code: Option<i64>) -> DetailsReaction {
    if kind == ErrorType::RiskControl {
        DetailsReaction::Abort
    } else if request_code == Some(CODE_NOT_FOUND) {
        DetailsReaction::Invalidate
    } else {
        DetailsReaction::Leave
    }
}

/// Judges why the details of a video could not be fetched. `request_code` is the code with which
/// the platform rejected the request, if it did.
pub fn judge_details_failure(kind: ErrorType, request_code: Option<i64>) -> (reaction:
    DetailsReaction)
    ensures
        reaction == details_reaction(kind, request_code),
{
    if kind == ErrorType::RiskControl {
        return DetailsReaction::Abort;
    }
    match request_code {
        Some(code) => if code == CODE_NOT_FOUND {
            DetailsReaction::Invalidate
        } else {
            DetailsReaction::Leave
        },
        None => DetailsReaction::Leave,
    }
}

/// The video is reserved for paying supporters, and the account is none of them.
pub open spec fn is_withheld(exclusive: Option<bool>, playable: Option<bool>) -> bool {
    exclusive == Some(true) && playable == Some(false)
}

/// Whether a video is reserved for paying supporters and the account is none of them.
pub fn is_locked(exclusive: Option<bool>, playable: Option<bool>) -> (locked: bool)
    ensures
        locked == is_withheld(exclusive, playable),
        locked <==> exclusive == Some(true) && playable == Some(false),
{
    match (exclusive, playable) {
        (Some(true), Some(false)) => true,
        _ => false,
    }
}

/// The name of the task that deletes a video that the account cannot play.
pub fn delete_task_id(video_id: i32) -> (id: String)
    ensures
        id@ == "auto_delete_upower_"@ + decimal_int(video_id as int),
{
    let mut id = "auto_delete_upower_".to_owned();
    id.append(integer_text(video_id as i64).as_str());
    id
}

/// Whether a video was made by several creators together.
pub fn is_joint(staff: &Vec<StaffInfo>) -> (answer: bool)
    ensures
        answer == (staff@.len() > 1),
{
    staff.len() > 1
}

/// The creator is among the staff.
pub open spec fn on_staff(staff: Seq<StaffInfo>, mid: i64) -> bool {
    exists|i: int| 0 <= i < staff.len() && (#[trigger] staff[i]).mid == mid
}

/// Whether the creator is among the staff.
pub fn is_on_staff(staff: &Vec<StaffInfo>, mid: i64) -> (answer: bool)
    ensures
        answer == on_staff(staff@, mid),
{
    let mut k: usize = 0;
    while k < staff.len()
        invariant
            k <= staff@.len(),
            forall|i: int| 0 <= i < k ==> (#[trigger] staff@[i]).mid != mid,
        decreases staff@.len() - k,
    {
        if staff[k].mid == mid {
            return true;
        }
        k += 1;
    }
    false
}

/// The search for a subscription to one of the makers of a video.
#[derive(Debug, Clone, Copy, PartialEq, Eq, Structural)]
pub enum StaffSearch {
    /// Load the subscription that the video came by.
    LoadSource { submission_id: i32 },
    /// Look for an enabled subscription to the member of the staff at `index`.
    LookUp { index: usize, mid: i64 },
    /// The subscription that was found is the one.
    Matched,
    /// There is none.
    Unmatched,
}

/// The first step of the search. A video with less than two makers is no joint one.
pub open spec fn search_start(staff: Seq<StaffInfo>, source_submission: Option<i32>) -> StaffSearch {
    if staff.len() <= 1 {
        StaffSearch::Unmatched
    } else if source_submission is Some {
        StaffSearch::LoadSource { submission_id: source_submission->0 }
    } else {
        StaffSearch::LookUp { index: 0, mid: staff[0].mid }
    }
}

/// The step of the search that follows another. `found` is the creator of the subscription that
/// was found.
pub open spec fn search_next(staff: Seq<StaffInfo>, step: StaffSearch, found: Option<i64>) -> StaffSearch {
    match step {
        StaffSearch::LoadSource { submission_id } => if found is Some && on_staff(staff, found->0) {
            StaffSearch::Matched
        } else {
            StaffSearch::Unmatched
        },
        StaffSearch::LookUp { index, mid } => if found is Some {
            StaffSearch::Matched
        } else if index + 1 < staff.len() {
            StaffSearch::LookUp { index: (index + 1) as usize, mid: staff[index + 1].mid }
        } else {
            StaffSearch::Unmatched
        },
        done => done,
    }
}

/// Starts the search for a subscription to one of the makers of a video.
pub fn start_staff_search(staff: &Vec<StaffInfo>, source_submission: Option<i32>) -> (step:
    StaffSearch)
    ensures
        step == search_start(staff@, source_submission),
{
    if staff.len() <= 1 {
        return StaffSearch::Unmatched;
    }
    match source_submission {
        Some(submission_id) => StaffSearch::LoadSource { submission_id },
        None => StaffSearch::LookUp { index: 0, mid: staff[0].mid },
    }
}

/// Goes on with the search. `found` is the creator of the subscription that was found.
pub fn advance_staff_search(staff: &Vec<StaffInfo>, step: StaffSearch, found: Option<i64>) -> (next:
    StaffSearch)
    ensures
        next == search_next(staff@, step, found),
{
    match step {
        StaffSearch::LoadSource { submission_id: _ } => {
            match found {
                Some(mid) => if is_on_staff(staff, mid) {
                    StaffSearch::Matched
                } else {
                    StaffSearch::Unmatched
                },
                None => StaffSearch::Unmatched,
            }
        },
        StaffSearch::LookUp { index, mid: _ } => {
            if found.is_some() {
                StaffSearch::Matched
            } else if index < staff.len() && index + 1 < staff.len() {
                StaffSearch::LookUp { index: index + 1, mid: staff[index + 1].mid }
            } else {
                StaffSearch::Unmatched
            }
        },
        done => done,
    }
}

/// Where the makers are looked up one by one, the search asks for each in turn until one is
/// subscribed to: after `count` of them were not, it asks for the next one, or ends.
pub open spec fn search_after_misses(staff: Seq<StaffInfo>, count: nat) -> StaffSearch
    decreases count,
{
    if count == 0 {
        search_start(staff, None)
    } else {
        search_next(staff, search_after_misses(staff, (count - 1) as nat), None)
    }
}

/// The search looks for every maker of a joint video in their order, and ends when none is left.
pub proof fn search_asks_in_turn(staff: Seq<StaffInfo>, count: nat)
    requires
        1 < staff.len() <= usize::MAX,
    ensures
        count < staff.len() ==> search_after_misses(staff, count) == (StaffSearch::LookUp {
            index: count as usize,
            mid: staff[count as int].mid,
        }),
        count >= staff.len() ==> search_after_misses(staff, count) == StaffSearch::Unmatched,
    decreases count,
{
    if count > 0 {
        search_asks_in_turn(staff, (count - 1) as nat);
    }
}

/// The creator that a video is filed under.
#[derive(Debug, Clone)]
pub struct Owner {
    pub upper_id: i64,
    pub upper_name: String,
    pub upper_face: String,
}

/// The portrait of the first member of the staff with the given id.
pub open spec fn portrait(staff: Seq<StaffInfo>, mid: i64) -> Seq<char>
    decreases staff.len(),
{
    if staff.len() == 0 {
        Seq::empty()
    } else if staff[0].mid == mid {
        staff[0].face@
    } else {
        portrait(staff.drop_first(), mid)
    }
}

/// The owner is the creator of the subscription, with the portrait that the staff list shows.
pub open spec fn owner_is(owner: Owner, submission: Submission, staff: Seq<StaffInfo>) -> bool {
    &&& owner.upper_id == submission.upper_id
    &&& owner.upper_name@ == submission.upper_name@
    &&& owner.upper_face@ == portrait(staff, submission.upper_id)
}

/// The owner of a joint video that is filed under a subscription.
pub fn owner_by_submission(submission: &Submission, staff: &Vec<StaffInfo>) -> (owner: Owner)
    ensures
        owner_is(owner, *submission, staff@),
{
    let mut face = String::new();
    let mut k: usize = 0;
    assert(staff@.skip(0) =~= staff@);
    while k < staff.len()
        invariant_except_break
            k <= staff@.len(),
            face@ == Seq::<char>::empty(),
            portrait(staff@, submission.upper_id) == portrait(
                staff@.skip(k as int),
                submission.upper_id,
            ),
        ensures
            face@ == portrait(staff@, submission.upper_id),
        decreases staff@.len() - k,
    {
        assert(staff@.skip(k as int)[0] == staff@[k as int]);
        if staff[k].mid == submission.upper_id {
            face = staff[k].face.clone();
            break;
        }
        assert(staff@.skip(k as int).drop_first() =~= staff@.skip(k + 1));
        k += 1;
    }
    Owner {
        upper_id: submission.upper_id,
        upper_name: submission.upper_name.clone(),
        upper_face: face,
    }
}

/// The last of the subscriptions whose creator is among the staff; none for a video with less than
/// two makers.
pub fn last_staff_submission(submissions: &Vec<Submission>, staff: &Vec<StaffInfo>) -> (at: Option<
    usize,
>)
    ensures
        at is Some <==> staff@.len() > 1 && exists|i: int|
            0 <= i < submissions@.len() && on_staff(staff@, (#[trigger] submissions@[i]).upper_id),
        at matches Some(k) ==> {
            &&& k < submissions@.len()
            &&& on_staff(staff@, submissions@[k as int].upper_id)
            &&& forall|i: int|
                k < i < submissions@.len() ==> !on_staff(
                    staff@,
                    (#[trigger] submissions@[i]).upper_id,
                )
        },
{
    if staff.len() <= 1 {
        return None;
    }
    let mut k: usize = submissions.len();
    while k > 0
        invariant
            k <= submissions@.len(),
            staff@.len() > 1,
            forall|i: int|
                k <= i < submissions@.len() ==> !on_staff(
                    staff@,
                    (#[trigger] submissions@[i]).upper_id,
                ),
        decreases k,
    {
        k -= 1;
        if is_on_staff(staff, submissions[k].upper_id) {
            return Some(k);
        }
    }
    None
}

/// What fetching the details of a video changes in its record, beside what the platform says.
#[derive(Debug, Clone)]
pub struct DetailUpdate {
    pub single_page: bool,
    pub cid: Option<i64>,
    pub owner: Option<Owner>,
}

/// The update is that of a video with these pages and makers, filed under this subscription.
pub open spec fn is_detail_update(
    update: DetailUpdate,
    page_cids: Seq<i64>,
    matched: Option<Submission>,
    staff: Seq<StaffInfo>,
) -> bool {
    &&& update.single_page == (page_cids.len() == 1)
    &&& update.cid == if page_cids.len() > 0 {
        Some(page_cids[0])
    } else {
        None::<i64>
    }
    &&& match matched {
        Some(submission) => update.owner matches Some(owner) && owner_is(owner, submission, staff),
        None => update.owner is None,
    }
}

/// What the pages and the staff of a video change in its record: it has a single page or several,
/// it takes the content id of its first page, and a joint video is filed under the subscription
/// that was found.
pub fn detail_update(page_cids: &Vec<i64>, matched: &Option<Submission>, staff: &Vec<StaffInfo>) -> (update:
    DetailUpdate)
    ensures
        is_detail_update(update, page_cids@, *matched, staff@),
        update.single_page == (page_cids@.len() == 1),
        update.cid == if page_cids@.len() > 0 {
            Some(page_cids@[0])
        } else {
            None::<i64>
        },
        update.owner is Some <==> matched is Some,
        update.owner matches Some(owner) ==> owner_is(owner, matched->0, staff@),
{
    let cid: Option<i64> = first_cid(page_cids);
    let owner = match matched {
        Some(submission) => Some(owner_by_submission(submission, staff)),
        None => None,
    };
    DetailUpdate { single_page: page_cids.len() == 1, cid, owner }
}

/// What is to be done when one of many videos failed while their details are fetched at once.
#[derive(Debug, Clone, Copy, PartialEq, Eq, Structural)]
pub enum FetchReaction {
    /// Report the failure at once and leave the others alone.
    Return,
    /// Cancel the others, wait for them, then report the failure.
    CancelAndReturn,
    /// Go on with the others.
    Continue,
}

/// What is to be done when one of many videos failed.
pub open spec fn fetch_reaction(kind: ErrorType, failure: Failure) -> FetchReaction {
    if kind == ErrorType::UserCancelled {
        FetchReaction::Return
    } else if failure.abort || says_cancelled(failure.message@) {
        FetchReaction::CancelAndReturn
    } else {
        FetchReaction::Continue
    }
}

/// Judges the failure of one of many videos.
pub fn judge_fetch_failure(kind: ErrorType, failure: &Failure) -> (reaction: FetchReaction)
    ensures
        reaction == fetch_reaction(kind, *failure),
        reaction is Return <==> kind == ErrorType::UserCancelled,
        reaction is CancelAndReturn <==> kind != ErrorType::UserCancelled && (failure.abort
            || says_cancelled(failure.message@)),
{
    if kind == ErrorType::UserCancelled {
        FetchReaction::Return
    } else if failure.abort || is_cancelled(failure.message.as_str()) {
        FetchReaction::CancelAndReturn
    } else {
        FetchReaction::Continue
    }
}

/// What is to be done next about a video that lacks details.
#[derive(Debug, Clone, Copy, PartialEq, Eq, Structural)]
pub enum DetailStep {
    /// Ask the platform for the details.
    Fetch,
    /// Record that the video does not exist any more.
    Invalidate,
    /// Have the video deleted, because the account cannot play it.
    Delete,
    /// Search for a subscription to one of its makers.
    Search(StaffSearch),
    /// Record the details. `matched` says whether a subscription was found.
    Save { matched: bool },
    /// Nothing more.
    Finished,
    /// Stop the whole run.
    Aborted,
}

/// What came of a step.
#[derive(Debug, Clone, Copy)]
pub enum DetailReport {
    /// The step was carried out.
    Done,
    /// The details are there: whether the video is reserved for supporters, and can be played.
    Fetched { exclusive: Option<bool>, playable: Option<bool> },
    /// The details could not be fetched.
    Failed { kind: ErrorType, request_code: Option<i64> },
    /// The creator of the subscription that was found.
    Found(Option<i64>),
}

/// The step that a search leads to.
pub open spec fn after_search(search: StaffSearch) -> DetailStep {
    match search {
        StaffSearch::Matched => DetailStep::Save { matched: true },
        StaffSearch::Unmatched => DetailStep::Save { matched: false },
        going_on => DetailStep::Search(going_on),
    }
}

/// The step that follows another. `staff` are the makers of the video, and `source_submission` is
/// the subscription that it came by.
pub open spec fn next_detail_step(
    step: DetailStep,
    report: DetailReport,
    staff: Seq<StaffInfo>,
    source_submission: Option<i32>,
) -> DetailStep {
    match (step, report) {
        (DetailStep::Fetch, DetailReport::Failed { kind, request_code }) => match details_reaction(
            kind,
            request_code,
        ) {
            DetailsReaction::Abort => DetailStep::Aborted,
            DetailsReaction::Invalidate => DetailStep::Invalidate,
            DetailsReaction::Leave => DetailStep::Finished,
        },
        (DetailStep::Fetch, DetailReport::Fetched { exclusive, playable }) => if exclusive == Some(
            true,
        ) && playable == Some(false) {
            DetailStep::Delete
        } else {
            after_search(search_start(staff, source_submission))
        },
        (DetailStep::Search(search), DetailReport::Found(found)) => after_search(
            search_next(staff, search, found),
        ),
        (DetailStep::Aborted, _) => DetailStep::Aborted,
        _ => DetailStep::Finished,
    }
}

fn lead_on(search: StaffSearch) -> (step: DetailStep)
    ensures
        step == after_search(search),
{
    match search {
        StaffSearch::Matched => DetailStep::Save { matched: true },
        StaffSearch::Unmatched => DetailStep::Save { matched: false },
        going_on => DetailStep::Search(going_on),
    }
}

/// Goes on with a video that lacks details. `staff` are its makers, and `source_submission` is the
/// subscription that it came by.
pub fn advance_details(
    step: DetailStep,
    report: DetailReport,
    staff: &Vec<StaffInfo>,
    source_submission: Option<i32>,
) -> (next: DetailStep)
    ensures
        next == next_detail_step(step, report, staff@, source_submission),
{
    match (step, report) {
        (DetailStep::Fetch, DetailReport::Failed { kind, request_code }) => {
            match judge_details_failure(kind, request_code) {
                DetailsReaction::Abort => DetailStep::Aborted,
                DetailsReaction::Invalidate => DetailStep::Invalidate,
                DetailsReaction::Leave => DetailStep::Finished,
            }
        },
        (DetailStep::Fetch, DetailReport::Fetched { exclusive, playable }) => {
            if is_locked(exclusive, playable) {
                DetailStep::Delete
            } else {
                lead_on(start_staff_search(staff, source_submission))
            }
        },
        (DetailStep::Search(search), DetailReport::Found(found)) => lead_on(
            advance_staff_search(staff, search, found),
        ),
        (DetailStep::Aborted, _) => DetailStep::Aborted,
        _ => DetailStep::Finished,
    }
}

/// How far the work on a video got after all these reports.
pub open spec fn detail_step_after(
    reports: Seq<DetailReport>,
    staff: Seq<StaffInfo>,
    source_submission: Option<i32>,
) -> DetailStep
    decreases reports.len(),
{
    if reports.len() == 0 {
        DetailStep::Fetch
    } else {
        next_detail_step(
            detail_step_after(reports.drop_last(), staff, source_submission),
            reports.last(),
            staff,
            source_submission,
        )
    }
}

/// A video that the account cannot play is deleted, and nothing else is done about it: it is never
/// recorded.
pub proof fn locked_video_is_only_deleted(
    reports: Seq<DetailReport>,
    staff: Seq<StaffInfo>,
    source_submission: Option<i32>,
)
    requires
        reports.len() > 0,
        reports[0] == (DetailReport::Fetched { exclusive: Some(true), playable: Some(false) }),
    ensures
        detail_step_after(reports, staff, source_submission) == if reports.len() == 1 {
            DetailStep::Delete
        } else {
            DetailStep::Finished
        },
    decreases reports.len(),
{
    let front = reports.drop_last();
    if reports.len() == 1 {
        assert(front.len() == 0);
        assert(reports.last() == reports[0]);
    } else {
        assert(front[0] == reports[0]);
        locked_video_is_only_deleted(front, staff, source_submission);
    }
}

/// Only a video whose details were fetched and that the account can play is recorded, and whether
/// or not one of its makers is subscribed to, it is.
pub proof fn played_video_is_recorded(
    report: DetailReport,
    staff: Seq<StaffInfo>,
    source_submission: Option<i32>,
)
    ensures
        ({
            let next = next_detail_step(DetailStep::Fetch, report, staff, source_submission);
            (next is Save || next is Search) <==> (report matches DetailReport::Fetched {
                exclusive,
                playable,
            } && !(exclusive == Some(true) && playable == Some(false)))
        }),
{
}

/// The number of steps that may still follow.
pub open spec fn detail_steps_left(step: DetailStep, staff: Seq<StaffInfo>) -> nat {
    match step {
        DetailStep::Fetch => staff.len() + 3,
        DetailStep::Search(StaffSearch::LookUp { index, mid }) => if index < staff.len() {
            (staff.len() - index + 1) as nat
        } else {
            2
        },
        DetailStep::Search(_) => 2,
        DetailStep::Invalidate => 1,
        DetailStep::Delete => 1,
        DetailStep::Save { matched } => 1,
        DetailStep::Finished => 0,
        DetailStep::Aborted => 0,
    }
}

/// Every step brings the work on a video nearer to its end.
pub proof fn every_detail_step_advances(
    step: DetailStep,
    report: DetailReport,
    staff: Seq<StaffInfo>,
    source_submission: Option<i32>,
)
    requires
        step != DetailStep::Finished,
        step != DetailStep::Aborted,
        staff.len() <= usize::MAX,
        !(step matches DetailStep::Search(search) && (search == StaffSearch::Matched || search
            == StaffSearch::Unmatched)),
    ensures
        detail_steps_left(next_detail_step(step, report, staff, source_submission), staff)
            < detail_steps_left(step, staff),
{
}

/// A joint video that came by a subscription is filed by that subscription: the others are not even
/// looked at. Only where it came by none are its makers looked up, from the first on. A video of a
/// single maker is recorded at once.
pub proof fn own_subscription_comes_first(
    exclusive: Option<bool>,
    playable: Option<bool>,
    staff: Seq<StaffInfo>,
    source_submission: Option<i32>,
)
    requires
        !(exclusive == Some(true) && playable == Some(false)),
    ensures
        ({
            let next = next_detail_step(
                DetailStep::Fetch,
                DetailReport::Fetched { exclusive, playable },
                staff,
                source_submission,
            );
            &&& staff.len() <= 1 ==> next == (DetailStep::Save { matched: false })
            &&& staff.len() > 1 ==> match source_submission {
                Some(id) => next == DetailStep::Search(
                    StaffSearch::LoadSource { submission_id: id },
                ),
                None => next == DetailStep::Search(
                    StaffSearch::LookUp { index: 0, mid: staff[0].mid },
                ),
            }
        }),
{
}

/// The subscription that a video came by is the one exactly if its creator is among the makers, and
/// nobody else is looked for if they are not.
pub proof fn own_subscription_decides(
    submission_id: i32,
    found: Option<i64>,
    staff: Seq<StaffInfo>,
    source_submission: Option<i32>,
)
    ensures
        ({
            let next = next_detail_step(
                DetailStep::Search(StaffSearch::LoadSource { submission_id }),
                DetailReport::Found(found),
                staff,
                source_submission,
            );
            next == (DetailStep::Save {
                matched: found matches Some(mid) && exists|i: int|
                    0 <= i < staff.len() && (#[trigger] staff[i]).mid == mid,
            })
        }),
{
}

/// The makers are looked up one after the other, each by their own number, and the first one that is
/// subscribed to ends the search.
pub proof fn first_subscribed_maker_is_taken(
    index: usize,
    mid: i64,
    found: Option<i64>,
    staff: Seq<StaffInfo>,
    source_submission: Option<i32>,
)
    requires
        index < staff.len() <= usize::MAX,
    ensures
        ({
            let next = next_detail_step(
                DetailStep::Search(StaffSearch::LookUp { index, mid }),
                DetailReport::Found(found),
                staff,
                source_submission,
            );
            &&& next == (DetailStep::Save { matched: true }) <==> found is Some
            &&& next == (DetailStep::Save { matched: false }) <==> found is None && index + 1
                == staff.len()
            &&& found is None && index + 1 < staff.len() ==> next == DetailStep::Search(
                StaffSearch::LookUp { index: (index + 1) as usize, mid: staff[index + 1].mid },
            )
        }),
{
}

/// When the platform refuses further requests the whole run stops, whatever code it gave. A video
/// that does not exist any more is recorded as such, and any other failure leaves the video alone.
pub proof fn failed_fetch_is_judged(
    kind: ErrorType,
    request_code: Option<i64>,
    staff: Seq<StaffInfo>,
    source_submission: Option<i32>,
)
    ensures
        ({
            let next = next_detail_step(
                DetailStep::Fetch,
                DetailReport::Failed { kind, request_code },
                staff,
                source_submission,
            );
            &&& next == DetailStep::Aborted <==> kind == ErrorType::RiskControl
            &&& next == DetailStep::Invalidate <==> kind != ErrorType::RiskControl && request_code
                == Some(-404i64)
            &&& next == DetailStep::Finished <==> kind != ErrorType::RiskControl && request_code
                != Some(-404i64)
        }),
{
}

/// Once a video was recorded, given up or handed over for deletion, nothing more is done about it.
pub proof fn work_on_a_video_ends(
    step: DetailStep,
    staff: Seq<StaffInfo>,
    source_submission: Option<i32>,
)
    requires
        step == DetailStep::Invalidate || step == DetailStep::Delete || step is Save || step
            == DetailStep::Finished,
    ensures
        next_detail_step(step, DetailReport::Done, staff, source_submission)
            == DetailStep::Finished,
{
}

/// The portrait of a creator is that of the first maker with their number; a creator who is not among
/// the makers has none.
pub proof fn portrait_is_that_of_the_creator(staff: Seq<StaffInfo>, mid: i64)
    ensures
        (forall|i: int| 0 <= i < staff.len() ==> (#[trigger] staff[i]).mid != mid) ==> portrait(
            staff,
            mid,
        ) == Seq::<char>::empty(),
        forall|at: int|
            0 <= at < staff.len() && (#[trigger] staff[at]).mid == mid && (forall|i: int|
                0 <= i < at ==> (#[trigger] staff[i]).mid != mid) ==> portrait(staff, mid)
                == staff[at].face@,
    decreases staff.len(),
{
    if staff.len() > 0 {
        let rest = staff.drop_first();
        portrait_is_that_of_the_creator(rest, mid);
        if forall|i: int| 0 <= i < staff.len() ==> (#[trigger] staff[i]).mid != mid {
            assert forall|i: int| 0 <= i < rest.len() implies (#[trigger] rest[i]).mid != mid by {
                assert(rest[i] == staff[i + 1]);
            }
            assert(staff[0].mid != mid);
        }
        assert forall|at: int|
            0 <= at < staff.len() && (#[trigger] staff[at]).mid == mid && (forall|i: int|
                0 <= i < at ==> (#[trigger] staff[i]).mid != mid) implies portrait(staff, mid)
            == staff[at].face@ by {
            if at > 0 {
                assert(staff[0].mid != mid);
                assert(rest[at - 1] == staff[at]);
                assert forall|i: int| 0 <= i < at - 1 implies (#[trigger] rest[i]).mid != mid by {
                    assert(rest[i] == staff[i + 1]);
                }
            }
        }
    }
}

/// A joint video that is filed under a subscription shows its creator: the number and the name are
/// those of the subscription, and the portrait is that of the maker with this number.
pub proof fn owner_is_the_creator(owner: Owner, submission: Submission, staff: Seq<StaffInfo>, at: int)
    requires
        owner_is(owner, submission, staff),
        0 <= at < staff.len(),
        staff[at].mid == submission.upper_id,
        forall|i: int| 0 <= i < at ==> (#[trigger] staff[i]).mid != submission.upper_id,
    ensures
        owner.upper_id == staff[at].mid,
        owner.upper_name@ == submission.upper_name@,
        owner.upper_face@ == staff[at].face@,
{
    portrait_is_that_of_the_creator(staff, submission.upper_id);
}

/// A video is locked exactly where it is reserved for supporters and the platform says that it cannot
/// be played; where either is unknown it is not.
pub proof fn unknown_is_not_locked(exclusive: Option<bool>, playable: Option<bool>)
    ensures
        is_withheld(Some(true), Some(false)),
        exclusive != Some(true) ==> !is_withheld(exclusive, playable),
        playable != Some(false) ==> !is_withheld(exclusive, playable),
{
}

/// When one of many videos fails, a stop by the user is reported at once and leaves the others alone. A
/// refusal or a cancellation stops the others first. Any other failure is none of their business.
pub proof fn one_failure_of_many_is_judged(kind: ErrorType, failure: Failure)
    ensures
        kind == ErrorType::UserCancelled ==> fetch_reaction(kind, failure) == FetchReaction::Return,
        kind != ErrorType::UserCancelled && (failure.abort || says_cancelled(failure.message@))
            ==> fetch_reaction(kind, failure) == FetchReaction::CancelAndReturn,
        kind != ErrorType::UserCancelled && !failure.abort && !says_cancelled(failure.message@)
            ==> fetch_reaction(kind, failure) == FetchReaction::Continue,
{
}

/// What is recorded with the details of a video follows its pages and its makers: it has a single page
/// exactly if there is one, it takes the number of the first page if there is any, and it gets the
/// creator of the subscription that was found, and no other.
pub proof fn details_follow_the_pages(
    update: DetailUpdate,
    page_cids: Seq<i64>,
    matched: Option<Submission>,
    staff: Seq<StaffInfo>,
)
    requires
        is_detail_update(update, page_cids, matched, staff),
    ensures
        update.single_page <==> page_cids.len() == 1,
        page_cids.len() == 0 ==> update.cid is None,
        page_cids.len() > 0 ==> update.cid == Some(page_cids[0]),
        matched is None ==> update.owner is None,
        matched matches Some(submission) ==> (update.owner matches Some(owner) && owner.upper_id
            == submission.upper_id && owner.upper_name@ == submission.upper_name@),
{
}

}
