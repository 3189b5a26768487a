//! The files with the comments on a page: which of them are due, and what is done about them.

use vstd::prelude::*;

use crate::entity::{VideoModel, SOURCE_TYPE_BANGUMI};
use crate::task_state::StateChange;

verus! {

/// What is done about the comments on a page.
#[derive(Debug, Clone, Copy, PartialEq, Eq, Structural)]
pub enum DanmakuStep {
    /// The file is removed.
    Remove,
    /// Nothing.
    Skip,
    /// Nothing, because the page cannot be asked for.
    Ignore,
    /// The comments are fetched.
    Fetch,
}

/// What a page that cannot be asked for is reported as.
pub fn invalid_page_message() -> (message: &'static str)
    ensures
        message@ == "CID 无效，无法下载弹幕"@,
{
    "CID 无效，无法下载弹幕"
}

/// What is done about the comments on a page. `enabled` says whether comments are wanted, `present`
/// whether there is a file with them, and `due` whether the task is open.
pub open spec fn danmaku_step(enabled: bool, present: bool, due: bool, cid: i64) -> DanmakuStep {
    if !enabled {
        if present {
            DanmakuStep::Remove
        } else {
            DanmakuStep::Skip
        }
    } else if present || !due {
        DanmakuStep::Skip
    } else if cid < 0 {
        DanmakuStep::Ignore
    } else {
        DanmakuStep::Fetch
    }
}

/// Decides what is done about the comments on a page.
pub fn plan_danmaku(enabled: bool, present: bool, due: bool, cid: i64) -> (step: DanmakuStep)
    ensures
        step == danmaku_step(enabled, present, due, cid),
{
    if !enabled {
        if present {
            return DanmakuStep::Remove;
        }
        return DanmakuStep::Skip;
    }
    if present || !due {
        return DanmakuStep::Skip;
    }
    if cid < 0 {
        return DanmakuStep::Ignore;
    }
    DanmakuStep::Fetch
}

/// The id of the episode by which the number of the video is looked up, if it has to be.
pub open spec fn episode_to_look_up(video: VideoModel) -> Option<String> {
    if video.source_type == Some(SOURCE_TYPE_BANGUMI) {
        video.ep_id
    } else {
        None
    }
}

/// The id of the episode by which the number of the video has to be looked up before its comments
/// are fetched. Only an episode of a series needs that.
pub fn aid_lookup(video: &VideoModel) -> (ep_id: Option<String>)
    ensures
        ep_id == episode_to_look_up(*video),
        ep_id == if video.source_type == Some(SOURCE_TYPE_BANGUMI) {
            video.ep_id
        } else {
            None::<String>
        },
{
    let in_series: bool = match video.source_type {
        Some(kind) => kind == SOURCE_TYPE_BANGUMI,
        None => false,
    };
    if !in_series {
        return None;
    }
    match &video.ep_id {
        Some(ep_id) => Some(ep_id.clone()),
        None => None,
    }
}

/// There is something to do about the comments on a page: they are wanted and missing, or there
/// and not wanted.
pub open spec fn has_danmaku_work(enabled: bool, present: bool) -> bool {
    enabled != present
}

/// A page, and whether it has a file with comments.
#[derive(Debug, Clone, Copy)]
pub struct DanmakuPage {
    pub id: i32,
    pub states: [u32; 5],
    /// Whether the file exists. A page without a place has none to speak of.
    pub present: Option<bool>,
}

/// A video and its pages.
#[derive(Debug, Clone)]
pub struct DanmakuVideo {
    pub id: i32,
    pub states: [u32; 5],
    pub pages: Vec<DanmakuPage>,
}

/// The task of a page that fetches the comments.
pub const DANMAKU_TASK: usize = 3;

/// The task of a video that downloads the pages.
pub const PAGES_TASK: usize = 4;

/// There is something to do about the comments on this page.
pub open spec fn page_is_due(enabled: bool, page: DanmakuPage) -> bool {
    page.present matches Some(present) && has_danmaku_work(enabled, present)
}

/// The pages of a video whose comments are due.
pub open spec fn due_pages(enabled: bool, pages: Seq<DanmakuPage>) -> Seq<DanmakuPage> {
    pages.filter(|page: DanmakuPage| page_is_due(enabled, page))
}

/// The change that opens the task for the comments.
pub open spec fn opens_page(change: StateChange, page: DanmakuPage) -> bool {
    change.id == page.id && change.states@ == page.states@.update(DANMAKU_TASK as int, 0u32)
}

/// The change that opens the task for the pages.
pub open spec fn opens_video(change: StateChange, video: DanmakuVideo) -> bool {
    change.id == video.id && change.states@ == video.states@.update(PAGES_TASK as int, 0u32)
}

/// The pages of all videos whose comments are due, in order.
pub open spec fn all_due_pages(enabled: bool, videos: Seq<DanmakuVideo>) -> Seq<DanmakuPage>
    decreases videos.len(),
{
    if videos.len() == 0 {
        Seq::empty()
    } else {
        all_due_pages(enabled, videos.drop_last()) + due_pages(enabled, videos.last().pages@)
    }
}

/// The videos with pages whose comments are due, in order.
pub open spec fn due_videos(enabled: bool, videos: Seq<DanmakuVideo>) -> Seq<DanmakuVideo> {
    videos.filter(|video: DanmakuVideo| due_pages(enabled, video.pages@).len() > 0)
}

/// The tasks that have to be opened again.
#[derive(Debug, Clone)]
pub struct DanmakuWork {
    pub pages: Vec<StateChange>,
    pub videos: Vec<StateChange>,
}

impl DanmakuWork {
    /// Whether there is something to do.
    pub fn has_work(&self) -> (answer: bool)
        ensures
            answer == (self.pages@.len() > 0),
    {
        self.pages.len() > 0
    }
}

fn append_due_pages(enabled: bool, pages: &Vec<DanmakuPage>, changes: &mut Vec<StateChange>) -> (any:
    bool)
    ensures
        any == (due_pages(enabled, pages@).len() > 0),
        final(changes)@.len() == old(changes)@.len() + due_pages(enabled, pages@).len(),
        forall|i: int|
            0 <= i < old(changes)@.len() ==> #[trigger] final(changes)@[i] == old(changes)@[i],
        forall|i: int|
            0 <= i < due_pages(enabled, pages@).len() ==> opens_page(
                final(changes)@[old(changes)@.len() + i],
                #[trigger] due_pages(enabled, pages@)[i],
            ),
{
    let ghost start = changes@;
    let ghost wanted = |page: DanmakuPage| page_is_due(enabled, page);
    proof {
        reveal(Seq::filter);
        assert(pages@.take(0).filter(wanted) =~= Seq::empty());
    }
    let mut any: bool = false;
    let mut k: usize = 0;
    while k < pages.len()
        invariant
            k <= pages@.len(),
            wanted == (|page: DanmakuPage| page_is_due(enabled, page)),
            any == (pages@.take(k as int).filter(wanted).len() > 0),
            changes@.len() == start.len() + pages@.take(k as int).filter(wanted).len(),
            forall|i: int| 0 <= i < start.len() ==> #[trigger] changes@[i] == start[i],
            forall|i: int|
                0 <= i < pages@.take(k as int).filter(wanted).len() ==> opens_page(
                    changes@[start.len() + i],
                    #[trigger] pages@.take(k as int).filter(wanted)[i],
                ),
        decreases pages@.len() - k,
    {
        let page = pages[k];
        proof {
            assert(pages@.take(k + 1).drop_last() =~= pages@.take(k as int));
            assert(pages@.take(k + 1).last() == page);
            reveal(Seq::filter);
        }
        let ghost before = pages@.take(k as int).filter(wanted);
        let ghost after = pages@.take(k + 1).filter(wanted);
        let ghost changes_before = changes@;
        let due: bool = match page.present {
            Some(present) => enabled != present,
            None => false,
        };
        if due {
            let mut states: [u32; 5] = page.states;
            states[3] = 0;
            let change = StateChange { id: page.id, states };
            changes.push(change);
            any = true;
            proof {
                assert(after =~= before.push(page));
                assert(states@ =~= page.states@.update(DANMAKU_TASK as int, 0u32));
                assert forall|i: int| 0 <= i < after.len() implies opens_page(
                    changes@[start.len() + i],
                    #[trigger] after[i],
                ) by {
                    if i < before.len() {
                        assert(after[i] == before[i]);
                        assert(changes@[start.len() + i] == changes_before[start.len() + i]);
                    }
                }
            }
        } else {
            assert(after =~= before);
        }
        k += 1;
    }
    proof {
        assert(pages@.take(pages@.len() as int) =~= pages@);
    }
    any
}

/// Finds the pages whose comments have to be fetched or removed, and opens their tasks again, with
/// the tasks of their videos.
pub fn check_danmaku(enabled: bool, videos: &Vec<DanmakuVideo>) -> (work: DanmakuWork)
    ensures
        work.pages@.len() == all_due_pages(enabled, videos@).len(),
        forall|i: int|
            0 <= i < work.pages@.len() ==> opens_page(
                #[trigger] work.pages@[i],
                all_due_pages(enabled, videos@)[i],
            ),
        work.videos@.len() == due_videos(enabled, videos@).len(),
        forall|i: int|
            0 <= i < work.videos@.len() ==> opens_video(
                #[trigger] work.videos@[i],
                due_videos(enabled, videos@)[i],
            ),
{
    let mut pages: Vec<StateChange> = Vec::new();
    let mut opened: Vec<StateChange> = Vec::new();
    let ghost wanted = |video: DanmakuVideo| due_pages(enabled, video.pages@).len() > 0;
    proof {
        reveal(Seq::filter);
        assert(videos@.take(0).filter(wanted) =~= Seq::empty());
        assert(videos@.take(0) =~= Seq::empty());
    }
    let mut k: usize = 0;
    while k < videos.len()
        invariant
            k <= videos@.len(),
            wanted == (|video: DanmakuVideo| due_pages(enabled, video.pages@).len() > 0),
            pages@.len() == all_due_pages(enabled, videos@.take(k as int)).len(),
            forall|i: int|
                0 <= i < pages@.len() ==> opens_page(
                    #[trigger] pages@[i],
                    all_due_pages(enabled, videos@.take(k as int))[i],
                ),
            opened@.len() == videos@.take(k as int).filter(wanted).len(),
            forall|i: int|
                0 <= i < opened@.len() ==> opens_video(
                    #[trigger] opened@[i],
                    videos@.take(k as int).filter(wanted)[i],
                ),
        decreases videos@.len() - k,
    {
        let video = &videos[k];
        proof {
            assert(videos@.take(k + 1).drop_last() =~= videos@.take(k as int));
            assert(videos@.take(k + 1).last() == video);
            reveal(Seq::filter);
        }
        let ghost pages_before = pages@;
        let ghost due = due_pages(enabled, video.pages@);
        let any: bool = append_due_pages(enabled, &video.pages, &mut pages);
        proof {
            let before = all_due_pages(enabled, videos@.take(k as int));
            let after = all_due_pages(enabled, videos@.take(k + 1));
            assert(after == before + due);
            assert forall|i: int| 0 <= i < pages@.len() implies opens_page(
                #[trigger] pages@[i],
                after[i],
            ) by {
                if i < before.len() {
                    assert(pages@[i] == pages_before[i]);
                } else {
                    assert(after[i] == due[i - before.len()]);
                }
            }
        }
        let ghost opened_before = opened@;
        let ghost before = videos@.take(k as int).filter(wanted);
        let ghost after = videos@.take(k + 1).filter(wanted);
        if any {
            let mut states: [u32; 5] = video.states;
            states[4] = 0;
            let change = StateChange { id: video.id, states };
            opened.push(change);
            proof {
                assert(after =~= before.push(*video));
                assert(states@ =~= video.states@.update(PAGES_TASK as int, 0u32));
                assert forall|i: int| 0 <= i < opened@.len() implies opens_video(
                    #[trigger] opened@[i],
                    after[i],
                ) by {
                    if i < before.len() {
                        assert(after[i] == before[i]);
                        assert(opened@[i] == opened_before[i]);
                    }
                }
            }
        } else {
            assert(after =~= before);
        }
        k += 1;
    }
    proof {
        assert(videos@.take(videos@.len() as int) =~= videos@);
    }
    DanmakuWork { pages, videos: opened }
}

proof fn pages_are_due(enabled: bool, pages: Seq<DanmakuPage>)
    ensures
        due_pages(enabled, pages).len() > 0 <==> exists|i: int|
            0 <= i < pages.len() && page_is_due(enabled, #[trigger] pages[i]),
    decreases pages.len(),
{
    reveal(Seq::filter);
    if pages.len() > 0 {
        pages_are_due(enabled, pages.drop_last());
        let rest = pages.drop_last();
        if page_is_due(enabled, pages.last()) {
            assert(pages[pages.len() - 1] == pages.last());
        } else {
            assert forall|i: int| 0 <= i < rest.len() implies rest[i] == #[trigger] pages[i] by {}
            if due_pages(enabled, rest).len() > 0 {
                let at = choose|i: int| 0 <= i < rest.len() && page_is_due(enabled, #[trigger] rest[i]);
                assert(page_is_due(enabled, pages[at]));
            }
        }
    }
}

/// There is something to do exactly if some page of some video lacks comments that are wanted, or
/// has comments that are not.
pub proof fn work_is_found(enabled: bool, videos: Seq<DanmakuVideo>)
    ensures
        all_due_pages(enabled, videos).len() > 0 <==> exists|v: int, p: int|
            0 <= v < videos.len() && 0 <= p < videos[v].pages@.len() && page_is_due(
                enabled,
                #[trigger] videos[v].pages@[p],
            ),
    decreases videos.len(),
{
    if videos.len() > 0 {
        let rest = videos.drop_last();
        let end = videos.len() - 1;
        work_is_found(enabled, rest);
        pages_are_due(enabled, videos.last().pages@);
        assert forall|v: int| 0 <= v < rest.len() implies rest[v] == #[trigger] videos[v] by {}
        if all_due_pages(enabled, rest).len() > 0 {
            let (v, p) = choose|v: int, p: int|
                0 <= v < rest.len() && 0 <= p < rest[v].pages@.len() && page_is_due(
                    enabled,
                    #[trigger] rest[v].pages@[p],
                );
            assert(page_is_due(enabled, videos[v].pages@[p]));
        }
        if due_pages(enabled, videos.last().pages@).len() > 0 {
            let p = choose|p: int|
                0 <= p < videos.last().pages@.len() && page_is_due(
                    enabled,
                    #[trigger] videos.last().pages@[p],
                );
            assert(page_is_due(enabled, videos[end].pages@[p]));
        }
        if exists|v: int, p: int|
            0 <= v < videos.len() && 0 <= p < videos[v].pages@.len() && page_is_due(
                enabled,
                #[trigger] videos[v].pages@[p],
            ) {
            let (v, p) = choose|v: int, p: int|
                0 <= v < videos.len() && 0 <= p < videos[v].pages@.len() && page_is_due(
                    enabled,
                    #[trigger] videos[v].pages@[p],
                );
            if v < end {
                assert(page_is_due(enabled, rest[v].pages@[p]));
            } else {
                assert(page_is_due(enabled, videos.last().pages@[p]));
            }
        }
    }
}

/// A page whose comments are due is worked on once its task is open, unless it cannot be asked for;
/// any other page is left alone.
pub proof fn due_pages_are_worked_on(enabled: bool, present: bool, cid: i64)
    ensures
        has_danmaku_work(enabled, present) && cid >= 0 ==> danmaku_step(enabled, present, true, cid)
            == if enabled {
            DanmakuStep::Fetch
        } else {
            DanmakuStep::Remove
        },
        !has_danmaku_work(enabled, present) ==> forall|due: bool| #[trigger]
            danmaku_step(enabled, present, due, cid) == DanmakuStep::Skip,
{
}

/// Once the comments of a page were fetched or removed, there is nothing more to do about them.
pub proof fn work_is_done(enabled: bool, present: bool, due: bool, cid: i64)
    ensures
        danmaku_step(enabled, present, due, cid) == DanmakuStep::Fetch ==> !has_danmaku_work(
            enabled,
            true,
        ),
        danmaku_step(enabled, present, due, cid) == DanmakuStep::Remove ==> !has_danmaku_work(
            enabled,
            false,
        ),
{
}

/// Comments that are not wanted are removed wherever there are any, and nothing else is done then.
/// Comments that are wanted are fetched where the task is open, there is no file yet and the page can
/// be asked for; a file that is there is never touched.
pub proof fn comments_follow_the_setting(present: bool, due: bool, cid: i64)
    ensures
        danmaku_step(false, true, due, cid) == DanmakuStep::Remove,
        danmaku_step(false, false, due, cid) == DanmakuStep::Skip,
        danmaku_step(true, present, due, cid) != DanmakuStep::Remove,
        danmaku_step(true, present, due, cid) == DanmakuStep::Fetch <==> !present && due && cid >= 0,
        danmaku_step(true, present, due, cid) == DanmakuStep::Ignore <==> !present && due && cid < 0,
        danmaku_step(true, present, due, cid) == DanmakuStep::Skip <==> present || !due,
{
}

/// There is something to do about a page exactly if comments are wanted and it has none, or it has
/// some and they are not wanted. A page without a place is left alone.
pub proof fn page_is_due_by_its_file(enabled: bool, page: DanmakuPage)
    ensures
        page_is_due(enabled, page) <==> (page.present == Some(true) && !enabled) || (page.present
            == Some(false) && enabled),
{
}

/// Opening the task for the comments of a page leaves its other four tasks as they are, and opening
/// the pages of a video leaves its other four tasks as they are.
pub proof fn only_one_task_is_opened(
    change: StateChange,
    page: DanmakuPage,
    video: DanmakuVideo,
    task: int,
)
    requires
        0 <= task < 5,
    ensures
        opens_page(change, page) ==> change.id == page.id && change.states@[task] == if task == 3 {
            0u32
        } else {
            page.states@[task]
        },
        opens_video(change, video) ==> change.id == video.id && change.states@[task] == if task
            == 4 {
            0u32
        } else {
            video.states@[task]
        },
{
    assert(page.states@.len() == 5);
    assert(video.states@.len() == 5);
}

proof fn due_pages_are_those_that_are_due(
    enabled: bool,
    pages: Seq<DanmakuPage>,
    page: DanmakuPage,
)
    ensures
        due_pages(enabled, pages).contains(page) <==> pages.contains(page) && page_is_due(
            enabled,
            page,
        ),
    decreases pages.len(),
{
    reveal(Seq::filter);
    if pages.len() > 0 {
        let front = pages.drop_last();
        let before = due_pages(enabled, front);
        let after = due_pages(enabled, pages);
        due_pages_are_those_that_are_due(enabled, front, page);
        if before.contains(page) {
            let k = choose|k: int| 0 <= k < before.len() && before[k] == page;
            assert(after[k] == page);
        }
        if front.contains(page) {
            let k = choose|k: int| 0 <= k < front.len() && front[k] == page;
            assert(pages[k] == page);
        }
        if pages.last() == page {
            assert(pages[pages.len() - 1] == page);
            if page_is_due(enabled, page) {
                assert(after[before.len() as int] == page);
            }
        }
        if after.contains(page) {
            let k = choose|k: int| 0 <= k < after.len() && after[k] == page;
            if k < before.len() {
                assert(before[k] == page);
            }
        }
        if pages.contains(page) && !front.contains(page) {
            let k = choose|k: int| 0 <= k < pages.len() && pages[k] == page;
            if k < front.len() {
                assert(front[k] == page);
            }
        }
    }
}

/// Exactly the pages are opened whose comments are missing though they are wanted, or there though
/// they are not: each of them, of whichever video.
pub proof fn every_due_page_is_opened(
    enabled: bool,
    videos: Seq<DanmakuVideo>,
    page: DanmakuPage,
)
    ensures
        all_due_pages(enabled, videos).contains(page) <==> page.present == Some(!enabled)
            && exists|v: int|
            0 <= v < videos.len() && (#[trigger] videos[v]).pages@.contains(page),
    decreases videos.len(),
{
    if videos.len() > 0 {
        let front = videos.drop_last();
        let before = all_due_pages(enabled, front);
        let own = due_pages(enabled, videos.last().pages@);
        let all = all_due_pages(enabled, videos);
        every_due_page_is_opened(enabled, front, page);
        due_pages_are_those_that_are_due(enabled, videos.last().pages@, page);
        assert(all == before + own);
        if before.contains(page) {
            let k = choose|k: int| 0 <= k < before.len() && before[k] == page;
            assert(all[k] == page);
            let v = choose|v: int|
                0 <= v < front.len() && (#[trigger] front[v]).pages@.contains(page);
            assert(videos[v].pages@.contains(page));
        }
        if own.contains(page) {
            let k = choose|k: int| 0 <= k < own.len() && own[k] == page;
            assert(all[before.len() + k] == page);
            assert(videos[videos.len() - 1].pages@.contains(page));
        }
        if all.contains(page) {
            let k = choose|k: int| 0 <= k < all.len() && all[k] == page;
            if k < before.len() {
                assert(before[k] == page);
            } else {
                assert(own[k - before.len()] == page);
            }
        }
        if page.present == Some(!enabled) && exists|v: int|
            0 <= v < videos.len() && (#[trigger] videos[v]).pages@.contains(page) {
            let v = choose|v: int|
                0 <= v < videos.len() && (#[trigger] videos[v]).pages@.contains(page);
            if v < front.len() {
                assert(front[v].pages@.contains(page));
            }
        }
    }
}

/// Exactly the videos are opened that have such a page.
pub proof fn every_due_video_is_opened(
    enabled: bool,
    videos: Seq<DanmakuVideo>,
    video: DanmakuVideo,
)
    ensures
        due_videos(enabled, videos).contains(video) <==> videos.contains(video) && exists|p: int|
            0 <= p < video.pages@.len() && (#[trigger] video.pages@[p]).present == Some(!enabled),
    decreases videos.len(),
{
    reveal(Seq::filter);
    pages_are_due(enabled, video.pages@);
    if due_pages(enabled, video.pages@).len() > 0 {
        let p = choose|p: int|
            0 <= p < video.pages@.len() && page_is_due(enabled, #[trigger] video.pages@[p]);
        assert(video.pages@[p].present == Some(!enabled));
    }
    if exists|p: int|
        0 <= p < video.pages@.len() && (#[trigger] video.pages@[p]).present == Some(!enabled) {
        let p = choose|p: int|
            0 <= p < video.pages@.len() && (#[trigger] video.pages@[p]).present == Some(!enabled);
        assert(page_is_due(enabled, video.pages@[p]));
    }
    if videos.len() > 0 {
        let front = videos.drop_last();
        let before = due_videos(enabled, front);
        let after = due_videos(enabled, videos);
        every_due_video_is_opened(enabled, front, video);
        if before.contains(video) {
            let k = choose|k: int| 0 <= k < before.len() && before[k] == video;
            assert(after[k] == video);
        }
        if front.contains(video) {
            let k = choose|k: int| 0 <= k < front.len() && front[k] == video;
            assert(videos[k] == video);
        }
        if videos.last() == video {
            assert(videos[videos.len() - 1] == video);
            if due_pages(enabled, video.pages@).len() > 0 {
                assert(after[before.len() as int] == video);
            }
        }
        if after.contains(video) {
            let k = choose|k: int| 0 <= k < after.len() && after[k] == video;
            if k < before.len() {
                assert(before[k] == video);
            }
        }
        if videos.contains(video) && !front.contains(video) {
            let k = choose|k: int| 0 <= k < videos.len() && videos[k] == video;
            if k < front.len() {
                assert(front[k] == video);
            }
        }
    }
}

/// Only for an episode of a series that is known by its number, the number of the video is looked up.
pub proof fn only_episodes_are_looked_up(video: VideoModel)
    ensures
        video.source_type == Some(1i32) ==> episode_to_look_up(video) == video.ep_id,
        video.source_type != Some(1i32) ==> episode_to_look_up(video) is None,
{
}

}
