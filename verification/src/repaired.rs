//! What a repair does for the tables as a whole.
//!
//! Every law speaks of a repair that finds the tables in some state and goes its course, as `tables`
//! reads the statements, while nobody else changes them.

use vstd::prelude::*;

use crate::repair::{
    duplicates_are_real, duplicates_in, every_answer_brings_on, is_supplied, repair_after,
    repair_next, RepairReply, RepairStep, RepairView,
};
use crate::source_update::{
    source_in, sources_are_collected, sources_in, update_in, updates_for, SourceRow, SourceTable,
};
use crate::sql::{is_listed, without_excludes};
use crate::tables::{
    all_attached, attaches, first_pages_match, has_number, holds_page, is_attached,
    is_attached_or_left, is_carried_out, is_conflict, is_course, is_mismatched, is_page_of,
    is_same_page, is_sound, is_source_of_deleted, is_true_of, marks_deleted, may_be_first_of,
    may_be_rest_of, must_be_first, must_be_rest, pages_come_from, replies_of, set_aside,
    tables_after, waits_for, with_video, without_pages, PageRow, Tables, Turn, VideoRow,
};

verus! {

/// Every page refers to a video or was set aside.
spec fn attached_or_aside(tables: Tables) -> bool {
    forall|p: int|
        0 <= p < tables.pages.len() ==> is_attached(tables, #[trigger] tables.pages[p])
            || tables.pages[p].video_id < 0
}

/// What holds of the tables when a step is reached.
spec fn holds_at(step: RepairStep, tables: Tables) -> bool {
    match step {
        RepairStep::CountMismatched
        | RepairStep::ListMismatched
        | RepairStep::DropMismatched => true,
        RepairStep::CountLost | RepairStep::SetAside => first_pages_match(tables),
        RepairStep::AttachFirst
        | RepairStep::ListConflicts
        | RepairStep::DropDuplicate
        | RepairStep::AttachRest
        | RepairStep::CountOrphans
        | RepairStep::DropOrphans => first_pages_match(tables) && attached_or_aside(tables),
        _ => first_pages_match(tables) && all_attached(tables),
    }
}

proof fn kept_are_among(pages: Seq<PageRow>, keep: spec_fn(PageRow) -> bool, at: int)
    requires
        0 <= at < pages.filter(keep).len(),
    ensures
        keep(pages.filter(keep)[at]),
        pages.contains(pages.filter(keep)[at]),
    decreases pages.len(),
{
    reveal(Seq::filter);
    if pages.len() > 0 {
        let front = pages.drop_last();
        if at < front.filter(keep).len() {
            kept_are_among(front, keep, at);
            assert(pages.filter(keep)[at] == front.filter(keep)[at]);
            let p = choose|p: int| 0 <= p < front.len() && front[p] == front.filter(keep)[at];
            assert(pages[p] == pages.filter(keep)[at]);
        } else {
            assert(pages[pages.len() - 1] == pages.filter(keep)[at]);
        }
    }
}

proof fn kept_are_distinct(pages: Seq<PageRow>, keep: spec_fn(PageRow) -> bool)
    requires
        forall|i: int, j: int|
            0 <= i < j < pages.len() ==> (#[trigger] pages[i]).id != (#[trigger] pages[j]).id,
    ensures
        forall|i: int, j: int|
            0 <= i < j < pages.filter(keep).len() ==> (#[trigger] pages.filter(keep)[i]).id != (
            #[trigger] pages.filter(keep)[j]).id,
    decreases pages.len(),
{
    reveal(Seq::filter);
    if pages.len() > 0 {
        let front = pages.drop_last();
        let kept = front.filter(keep);
        kept_are_distinct(front, keep);
        assert forall|i: int| 0 <= i < kept.len() implies (#[trigger] kept[i]).id
            != pages.last().id by {
            kept_are_among(front, keep, i);
            let p = choose|p: int| 0 <= p < front.len() && front[p] == kept[i];
            assert(pages[p].id != pages[pages.len() - 1].id);
        }
        let all = pages.filter(keep);
        assert forall|i: int, j: int| 0 <= i < j < all.len() implies (#[trigger] all[i]).id != (
        #[trigger] all[j]).id by {
            assert(all[i] == kept[i]);
            if j < kept.len() {
                assert(all[j] == kept[j]);
            }
        }
    }
}

proof fn kept_are_all(pages: Seq<PageRow>, keep: spec_fn(PageRow) -> bool, page: PageRow)
    requires
        pages.contains(page),
        keep(page),
    ensures
        pages.filter(keep).contains(page),
    decreases pages.len(),
{
    reveal(Seq::filter);
    let front = pages.drop_last();
    let all = pages.filter(keep);
    if pages.last() == page {
        assert(all[all.len() - 1] == page);
    } else {
        let p = choose|p: int| 0 <= p < pages.len() && pages[p] == page;
        assert(front[p] == page);
        kept_are_all(front, keep, page);
        let kept = front.filter(keep);
        let k = choose|k: int| 0 <= k < kept.len() && kept[k] == page;
        assert(all[k] == page);
    }
}

proof fn none_counted(pages: Seq<PageRow>, counted: spec_fn(PageRow) -> bool)
    requires
        pages.filter(counted).len() == 0,
    ensures
        forall|p: int| 0 <= p < pages.len() ==> !counted(#[trigger] pages[p]),
    decreases pages.len(),
{
    reveal(Seq::filter);
    if pages.len() > 0 {
        none_counted(pages.drop_last(), counted);
        assert forall|p: int| 0 <= p < pages.len() implies !counted(#[trigger] pages[p]) by {
            if p < pages.len() - 1 {
                assert(pages[p] == pages.drop_last()[p]);
            }
        }
    }
}

proof fn none_count(pages: Seq<PageRow>, counted: spec_fn(PageRow) -> bool)
    requires
        forall|p: int| 0 <= p < pages.len() ==> !counted(#[trigger] pages[p]),
    ensures
        pages.filter(counted).len() == 0,
{
    if pages.filter(counted).len() > 0 {
        kept_are_among(pages, counted, 0);
    }
}

/// A page that was there before stays as it is when the tables are left alone.
proof fn unchanged(before: Tables, after: Tables)
    requires
        after == before,
    ensures
        pages_come_from(before, after),
{
    assert forall|p: int| 0 <= p < after.pages.len() implies holds_page(
        before,
        #[trigger] after.pages[p],
    ) by {
        assert(is_same_page(after.pages[p], before.pages[p]));
    }
}

proof fn none_mismatched(tables: Tables)
    requires
        forall|p: int|
            0 <= p < tables.pages.len() ==> !is_mismatched(tables, #[trigger] tables.pages[p]),
    ensures
        first_pages_match(tables),
{
}

proof fn after_deletion(before: Tables, after: Tables, gone: spec_fn(PageRow) -> bool)
    requires
        is_sound(before),
        without_pages(before, after, gone),
    ensures
        is_sound(after),
        pages_come_from(before, after),
        first_pages_match(before) ==> first_pages_match(after),
        all_attached(before) ==> all_attached(after),
        attached_or_aside(before) ==> attached_or_aside(after),
        forall|p: int| 0 <= p < after.pages.len() ==> !gone(#[trigger] after.pages[p]),
{
    let keep = |page: PageRow| !gone(page);
    kept_are_distinct(before.pages, keep);
    assert forall|p: int| 0 <= p < after.pages.len() implies keep(#[trigger] after.pages[p])
        && before.pages.contains(after.pages[p]) by {
        kept_are_among(before.pages, keep, p);
    }
    assert forall|p: int| 0 <= p < after.pages.len() implies holds_page(
        before,
        #[trigger] after.pages[p],
    ) by {
        assert(before.pages.contains(after.pages[p]));
        let q = choose|q: int| 0 <= q < before.pages.len() && before.pages[q] == after.pages[p];
        assert(is_same_page(after.pages[p], before.pages[q]));
    }
    assert(forall|page: PageRow| #[trigger] is_attached(after, page) <==> is_attached(before, page))
        by {
        assert(after.videos == before.videos);
    }
}

proof fn after_setting_aside(before: Tables, after: Tables)
    requires
        is_sound(before),
        first_pages_match(before),
        set_aside(before, after),
    ensures
        is_sound(after),
        pages_come_from(before, after),
        first_pages_match(after),
        attached_or_aside(after),
{
    assert forall|p: int| 0 <= p < after.pages.len() implies is_same_page(
        #[trigger] after.pages[p],
        before.pages[p],
    ) && (after.pages[p] == before.pages[p] && is_attached(before, before.pages[p])
        || after.pages[p].video_id == -before.pages[p].id) by {}
    assert forall|p: int| 0 <= p < after.pages.len() implies holds_page(
        before,
        #[trigger] after.pages[p],
    ) by {
        assert(is_same_page(after.pages[p], before.pages[p]));
    }
    assert forall|p: int| 0 <= p < after.pages.len() implies is_attached(
        after,
        #[trigger] after.pages[p],
    ) || after.pages[p].video_id < 0 by {
        assert(before.pages[p].id > 0);
        if is_attached(before, before.pages[p]) {
            let v = choose|v: int|
                0 <= v < before.videos.len() && is_page_of(
                    before.pages[p],
                    #[trigger] before.videos[v],
                );
            assert(is_page_of(after.pages[p], after.videos[v]));
        }
    }
    assert forall|p: int, v: int|
        0 <= p < after.pages.len() && 0 <= v < after.videos.len() && is_page_of(
            #[trigger] after.pages[p],
            #[trigger] after.videos[v],
        ) && after.pages[p].pid == 1 && after.videos[v].cid is Some implies after.videos[v].cid
        == Some(after.pages[p].cid) by {
        assert(before.pages[p].id > 0);
        assert(before.videos[v].id > 0);
        assert(is_page_of(before.pages[p], before.videos[v]));
    }
}

proof fn after_attaching(
    before: Tables,
    after: Tables,
    may: spec_fn(PageRow, VideoRow) -> bool,
    must: spec_fn(PageRow) -> bool,
)
    requires
        is_sound(before),
        first_pages_match(before),
        attached_or_aside(before),
        attaches(before, after, may, must),
        forall|page: PageRow, video: VideoRow| #[trigger]
            may(page, video) ==> page.pid > 1 || video.cid == Some(page.cid),
    ensures
        is_sound(after),
        pages_come_from(before, after),
        first_pages_match(after),
        attached_or_aside(after),
{
    assert forall|p: int| 0 <= p < after.pages.len() implies is_same_page(
        #[trigger] after.pages[p],
        before.pages[p],
    ) by {
        assert(is_attached_or_left(before, before.pages[p], after.pages[p], may));
    }
    assert forall|p: int| 0 <= p < after.pages.len() implies holds_page(
        before,
        #[trigger] after.pages[p],
    ) by {
        assert(is_same_page(after.pages[p], before.pages[p]));
    }
    assert forall|p: int| 0 <= p < after.pages.len() implies (#[trigger] after.pages[p]).id > 0 by {
        assert(is_same_page(after.pages[p], before.pages[p]));
        assert(before.pages[p].id > 0);
    }
    assert forall|p: int| 0 <= p < after.pages.len() implies is_attached(
        after,
        #[trigger] after.pages[p],
    ) || after.pages[p].video_id < 0 by {
        assert(is_attached_or_left(before, before.pages[p], after.pages[p], may));
        if after.pages[p] == before.pages[p] {
            if before.pages[p].video_id >= 0 {
                let v = choose|v: int|
                    0 <= v < before.videos.len() && is_page_of(
                        before.pages[p],
                        #[trigger] before.videos[v],
                    );
                assert(is_page_of(after.pages[p], after.videos[v]));
            }
        } else {
            let v = choose|v: int|
                0 <= v < before.videos.len() && may(before.pages[p], #[trigger] before.videos[v])
                    && after.pages[p] == with_video(before.pages[p], before.videos[v].id);
            assert(is_page_of(after.pages[p], after.videos[v]));
        }
    }
    assert forall|p: int, v: int|
        0 <= p < after.pages.len() && 0 <= v < after.videos.len() && is_page_of(
            #[trigger] after.pages[p],
            #[trigger] after.videos[v],
        ) && after.pages[p].pid == 1 && after.videos[v].cid is Some implies after.videos[v].cid
        == Some(after.pages[p].cid) by {
        assert(is_attached_or_left(before, before.pages[p], after.pages[p], may));
        if after.pages[p] == before.pages[p] {
            assert(is_page_of(before.pages[p], before.videos[v]));
        } else {
            let w = choose|w: int|
                0 <= w < before.videos.len() && may(before.pages[p], #[trigger] before.videos[w])
                    && after.pages[p] == with_video(before.pages[p], before.videos[w].id);
            assert(before.videos[w].id == before.videos[v].id);
            assert(w == v);
        }
    }
}

proof fn after_marking(before: Tables, after: Tables, video_id: int)
    requires
        is_sound(before),
        first_pages_match(before),
        all_attached(before),
        marks_deleted(before, after, video_id),
    ensures
        is_sound(after),
        pages_come_from(before, after),
        first_pages_match(after),
        all_attached(after),
{
    assert forall|v: int| 0 <= v < before.videos.len() implies (#[trigger] after.videos[v]).id
        == before.videos[v].id && after.videos[v].cid == before.videos[v].cid by {}
    assert forall|p: int| 0 <= p < after.pages.len() implies holds_page(
        before,
        #[trigger] after.pages[p],
    ) by {
        assert(is_same_page(after.pages[p], before.pages[p]));
    }
    assert forall|p: int| 0 <= p < after.pages.len() implies is_attached(
        after,
        #[trigger] after.pages[p],
    ) by {
        assert(is_attached(before, before.pages[p]));
        let v = choose|v: int|
            0 <= v < before.videos.len() && is_page_of(
                before.pages[p],
                #[trigger] before.videos[v],
            );
        assert(is_page_of(after.pages[p], after.videos[v]));
    }
    assert forall|p: int, v: int|
        0 <= p < after.pages.len() && 0 <= v < after.videos.len() && is_page_of(
            #[trigger] after.pages[p],
            #[trigger] after.videos[v],
        ) && after.pages[p].pid == 1 && after.videos[v].cid is Some implies after.videos[v].cid
        == Some(after.pages[p].cid) by {
        assert(is_page_of(before.pages[p], before.videos[v]));
    }
    assert forall|i: int, j: int| 0 <= i < j < after.videos.len() implies (
    #[trigger] after.videos[i]).id != (#[trigger] after.videos[j]).id by {
        assert(before.videos[i].id != before.videos[j].id);
    }
    assert forall|v: int| 0 <= v < after.videos.len() implies (#[trigger] after.videos[v]).id
        > 0 by {
        assert(before.videos[v].id > 0);
    }
}

/// A step keeps what the repair has reached.
proof fn step_keeps(state: RepairView, reply: RepairReply, before: Tables, after: Tables)
    requires
        is_sound(before),
        holds_at(state.step, before),
        is_true_of(reply, state, before),
        is_carried_out(state, before, after),
    ensures
        is_sound(after),
        pages_come_from(before, after),
        holds_at(repair_next(state, reply).step, after),
{
    match state.step {
        RepairStep::CountMismatched => {
            unchanged(before, after);
            if reply->Count_0 <= 0 {
                none_counted(before.pages, |page: PageRow| is_mismatched(before, page));
                none_mismatched(after);
            }
        },
        RepairStep::DropMismatched => {
            let gone = |page: PageRow| is_mismatched(before, page);
            after_deletion(before, after, gone);
            assert forall|p: int| 0 <= p < after.pages.len() implies !is_mismatched(
                after,
                #[trigger] after.pages[p],
            ) by {
                assert(!gone(after.pages[p]));
            }
            none_mismatched(after);
        },
        RepairStep::CountLost => {
            unchanged(before, after);
            if reply->Count_0 == 0 {
                none_counted(before.pages, |page: PageRow| !is_attached(before, page));
            }
        },
        RepairStep::SetAside => {
            after_setting_aside(before, after);
        },
        RepairStep::AttachFirst => {
            after_attaching(
                before,
                after,
                |page: PageRow, video: VideoRow| may_be_first_of(before, page, video),
                |page: PageRow| must_be_first(before, page),
            );
        },
        RepairStep::DropDuplicate => {
            after_deletion(before, after, |page: PageRow| page.id == state.duplicates[0]);
        },
        RepairStep::AttachRest => {
            after_attaching(
                before,
                after,
                |page: PageRow, video: VideoRow| may_be_rest_of(before, page, video),
                |page: PageRow| must_be_rest(before, page),
            );
        },
        RepairStep::CountOrphans => {
            unchanged(before, after);
            if reply->Count_0 <= 0 {
                none_counted(before.pages, |page: PageRow| page.video_id < 0);
            }
        },
        RepairStep::DropOrphans => {
            let gone = |page: PageRow| page.video_id < 0;
            after_deletion(before, after, gone);
            assert forall|p: int| 0 <= p < after.pages.len() implies is_attached(
                after,
                #[trigger] after.pages[p],
            ) by {
                assert(!gone(after.pages[p]));
            }
        },
        RepairStep::MarkDeleted => {
            after_marking(before, after, state.condemned[0] as int);
        },
        RepairStep::EnableScan => {
            assert(after.pages == before.pages && after.videos == before.videos);
            assert forall|p: int| 0 <= p < after.pages.len() implies is_attached(
                after,
                #[trigger] after.pages[p],
            ) by {
                assert(is_attached(before, before.pages[p]));
            }
            unchanged(before, Tables { scans: before.scans, ..after });
        },
        _ => {
            unchanged(before, after);
        },
    }
}

/// What a repair has reached at every point of its course.
proof fn course_keeps(start: Tables, turns: Seq<Turn>)
    requires
        is_sound(start),
        is_course(start, turns),
    ensures
        is_sound(tables_after(start, turns)),
        pages_come_from(start, tables_after(start, turns)),
        holds_at(repair_after(replies_of(turns)).step, tables_after(start, turns)),
    decreases turns.len(),
{
    let now = tables_after(start, turns);
    if turns.len() == 0 {
        unchanged(start, now);
    } else {
        let front = turns.drop_last();
        let before = tables_after(start, front);
        course_keeps(start, front);
        assert(replies_of(turns).drop_last() =~= replies_of(front));
        step_keeps(repair_after(replies_of(front)), turns.last().reply, before, now);
        assert forall|p: int| 0 <= p < now.pages.len() implies holds_page(
            start,
            #[trigger] now.pages[p],
        ) by {
            assert(holds_page(before, now.pages[p]));
            let m = choose|m: int|
                0 <= m < before.pages.len() && is_same_page(
                    now.pages[p],
                    #[trigger] before.pages[m],
                );
            assert(holds_page(start, before.pages[m]));
            let q = choose|q: int|
                0 <= q < start.pages.len() && is_same_page(
                    before.pages[m],
                    #[trigger] start.pages[q],
                );
            assert(is_same_page(now.pages[p], start.pages[q]));
        }
    }
}

/// The repair has ended.
pub open spec fn is_finished(turns: Seq<Turn>) -> bool {
    repair_after(replies_of(turns)).step == RepairStep::Finished
}

/// After a repair every page refers to a video, and no page was added: each one was there before,
/// though it may have referred to another video, and none is there twice.
pub proof fn repaired_pages_have_videos(start: Tables, turns: Seq<Turn>)
    requires
        is_sound(start),
        is_course(start, turns),
        is_finished(turns),
    ensures
        all_attached(tables_after(start, turns)),
        pages_come_from(start, tables_after(start, turns)),
        is_sound(tables_after(start, turns)),
{
    course_keeps(start, turns);
}

/// After a repair every first page has the number that its video is recorded with, if the video is
/// recorded with one.
pub proof fn repaired_first_pages_match(start: Tables, turns: Seq<Turn>)
    requires
        is_sound(start),
        is_course(start, turns),
        is_finished(turns),
    ensures
        first_pages_match(tables_after(start, turns)),
{
    course_keeps(start, turns);
}

/// A repair of tables in which nothing is wrong changes nothing.
proof fn nothing_to_repair(start: Tables, turns: Seq<Turn>)
    requires
        all_attached(start),
        first_pages_match(start),
        is_course(start, turns),
    ensures
        tables_after(start, turns) == start,
        ({
            let step = repair_after(replies_of(turns)).step;
            step == RepairStep::CountMismatched || step == RepairStep::CountLost || step
                == RepairStep::CommitUnchanged || step == RepairStep::Finished
        }),
    decreases turns.len(),
{
    if turns.len() > 0 {
        let front = turns.drop_last();
        nothing_to_repair(start, front);
        assert(replies_of(turns).drop_last() =~= replies_of(front));
        none_count(start.pages, |page: PageRow| is_mismatched(start, page));
        none_count(start.pages, |page: PageRow| !is_attached(start, page));
    }
}

/// A second repair changes nothing: the pages, the videos and the sources are as they were after the
/// first one, at every point of it, and it ends without a statement that could change them.
pub proof fn second_repair_changes_nothing(start: Tables, turns: Seq<Turn>, again: Seq<Turn>)
    requires
        is_sound(start),
        is_course(start, turns),
        is_finished(turns),
        is_course(tables_after(start, turns), again),
    ensures
        tables_after(tables_after(start, turns), again) == tables_after(start, turns),
        ({
            let step = repair_after(replies_of(again)).step;
            step == RepairStep::CountMismatched || step == RepairStep::CountLost || step
                == RepairStep::CommitUnchanged || step == RepairStep::Finished
        }),
{
    course_keeps(start, turns);
    nothing_to_repair(tables_after(start, turns), again);
}

/// No page refers to a video of this number.
pub open spec fn is_bare(tables: Tables, video_id: int) -> bool {
    forall|p: int| 0 <= p < tables.pages.len() ==> (#[trigger] tables.pages[p]).video_id != video_id
}

/// The repair may mark videos at this step, or has done so.
spec fn is_late(step: RepairStep) -> bool {
    match step {
        RepairStep::MarkDeleted
        | RepairStep::ListSources
        | RepairStep::EnableScan
        | RepairStep::Commit
        | RepairStep::CommitUnchanged
        | RepairStep::CountLeft
        | RepairStep::Finished => true,
        _ => false,
    }
}

/// The videos are those that were there at the start, in the same order.
pub open spec fn videos_are_kept(start: Tables, now: Tables) -> bool {
    &&& now.videos.len() == start.videos.len()
    &&& forall|v: int|
        0 <= v < now.videos.len() ==> (#[trigger] now.videos[v]) == (VideoRow {
            deleted: now.videos[v].deleted,
            ..start.videos[v]
        })
}

/// A video that is marked as deleted, and was not so at the start, has no page.
pub open spec fn only_bare_are_marked(start: Tables, now: Tables) -> bool {
    forall|v: int|
        0 <= v < now.videos.len() && (#[trigger] now.videos[v]).deleted && !start.videos[v].deleted
            ==> is_bare(now, now.videos[v].id)
}

spec fn marks_hold(state: RepairView, start: Tables, now: Tables) -> bool {
    &&& videos_are_kept(start, now)
    &&& !is_late(state.step) ==> now.videos == start.videos
    &&& only_bare_are_marked(start, now)
    &&& state.step == RepairStep::MarkDeleted ==> forall|i: int|
        0 <= i < state.condemned.len() ==> is_bare(now, #[trigger] state.condemned[i] as int)
    &&& forall|id: i64| #[trigger] is_listed(state.mismatched, id) ==> id > 0
}

proof fn step_keeps_marks(
    state: RepairView,
    reply: RepairReply,
    start: Tables,
    before: Tables,
    after: Tables,
)
    requires
        is_sound(before),
        is_supplied(state),
        marks_hold(state, start, before),
        is_true_of(reply, state, before),
        is_carried_out(state, before, after),
    ensures
        marks_hold(repair_next(state, reply), start, after),
{
    let next = repair_next(state, reply);
    if state.step == RepairStep::ListAttached {
        assert forall|i: int| 0 <= i < next.condemned.len() implies is_bare(
            after,
            #[trigger] next.condemned[i] as int,
        ) by {
            let id = next.condemned[i];
            assert(is_listed(next.condemned, id));
            without_excludes(state.mismatched, reply->Ids_0@, id);
            assert(!is_listed(reply->Ids_0@, id));
            assert(is_listed(state.mismatched, id));
        }
    }
    if state.step == RepairStep::ListMismatched {
        assert forall|id: i64| #[trigger] is_listed(next.mismatched, id) implies id > 0 by {
            let listed = |page: PageRow| is_mismatched(before, page);
            let p = choose|p: int|
                0 <= p < before.pages.len() && listed(#[trigger] before.pages[p])
                    && before.pages[p].video_id == id;
            let v = choose|v: int|
                0 <= v < before.videos.len() && is_page_of(
                    before.pages[p],
                    #[trigger] before.videos[v],
                );
            assert(before.videos[v].id > 0);
        }
    }
    if state.step == RepairStep::MarkDeleted {
        assert(is_bare(before, state.condemned[0] as int));
        assert forall|v: int|
            0 <= v < after.videos.len() && (#[trigger] after.videos[v]).deleted
                && !start.videos[v].deleted implies is_bare(after, after.videos[v].id) by {
            assert(before.videos[v].id == after.videos[v].id);
            if before.videos[v].deleted {
                assert(is_bare(before, before.videos[v].id));
            }
        }
    }
}

proof fn course_keeps_marks(start: Tables, turns: Seq<Turn>)
    requires
        is_sound(start),
        is_course(start, turns),
    ensures
        is_supplied(repair_after(replies_of(turns))),
        marks_hold(repair_after(replies_of(turns)), start, tables_after(start, turns)),
    decreases turns.len(),
{
    if turns.len() > 0 {
        let front = turns.drop_last();
        let state = repair_after(replies_of(front));
        course_keeps(start, front);
        course_keeps_marks(start, front);
        assert(replies_of(turns).drop_last() =~= replies_of(front));
        step_keeps_marks(
            state,
            turns.last().reply,
            start,
            tables_after(start, front),
            tables_after(start, turns),
        );
        if state.step != RepairStep::Finished {
            every_answer_brings_on(state, turns.last().reply);
        }
    }
}

/// A repair keeps all videos and changes nothing about them, but that it may mark them as deleted;
/// and it marks none that has a page in the end.
pub proof fn marked_videos_have_no_pages(start: Tables, turns: Seq<Turn>)
    requires
        is_sound(start),
        is_course(start, turns),
    ensures
        videos_are_kept(start, tables_after(start, turns)),
        only_bare_are_marked(start, tables_after(start, turns)),
{
    course_keeps_marks(start, turns);
}

/// A video with this source is marked as deleted, and was not so at the start.
pub open spec fn is_source_of_marked(
    start: Tables,
    now: Tables,
    table: SourceTable,
    id: i32,
) -> bool {
    exists|v: int|
        0 <= v < now.videos.len() && (#[trigger] now.videos[v]).deleted && !start.videos[v].deleted
            && source_in(now.videos[v].sources, table) == Some(id)
}

/// The source is there, and its deleted videos are not looked for.
pub open spec fn is_unscanned(tables: Tables, table: SourceTable, id: i32) -> bool {
    tables.scans.dom().contains((table, id as int)) && !tables.scans[(table, id as int)]
}

/// The updates reach the source.
spec fn is_updated(updates: Seq<(SourceTable, Seq<i32>)>, table: SourceTable, id: i32) -> bool {
    exists|k: int|
        0 <= k < updates.len() && (#[trigger] updates[k]).0 == table && updates[k].1.contains(id)
}

proof fn joined_updates_reach(
    first: Seq<(SourceTable, Seq<i32>)>,
    second: Seq<(SourceTable, Seq<i32>)>,
    table: SourceTable,
    id: i32,
)
    requires
        is_updated(first, table, id) || is_updated(second, table, id),
    ensures
        is_updated(first + second, table, id),
{
    let both = first + second;
    if is_updated(first, table, id) {
        let k = choose|k: int|
            0 <= k < first.len() && (#[trigger] first[k]).0 == table && first[k].1.contains(id);
        assert(both[k] == first[k]);
    } else {
        let k = choose|k: int|
            0 <= k < second.len() && (#[trigger] second[k]).0 == table && second[k].1.contains(id);
        assert(both[first.len() + k] == second[k]);
    }
}

proof fn every_source_is_updated(rows: Seq<SourceRow>, row: SourceRow, table: SourceTable, id: i32)
    requires
        rows.contains(row),
        source_in(row, table) == Some(id),
    ensures
        is_updated(updates_for(rows), table, id),
{
    sources_are_collected(rows, table);
    let i = choose|i: int| 0 <= i < rows.len() && rows[i] == row;
    assert(source_in(rows[i], table) == Some(id));
    assert(sources_in(rows, table).contains(id));
    let own = update_in(rows, table);
    assert(own[0].0 == table && own[0].1.contains(id));
    assert(is_updated(own, table, id));
    let submissions = update_in(rows, SourceTable::Submission);
    let collections = update_in(rows, SourceTable::Collection);
    let favorites = update_in(rows, SourceTable::Favorite);
    let later = update_in(rows, SourceTable::WatchLater);
    let others = update_in(rows, SourceTable::VideoSource);
    if table == SourceTable::Submission || table == SourceTable::Collection {
        joined_updates_reach(submissions, collections, table, id);
    }
    if table != SourceTable::WatchLater && table != SourceTable::VideoSource {
        joined_updates_reach(submissions + collections, favorites, table, id);
    }
    if table != SourceTable::VideoSource {
        joined_updates_reach(submissions + collections + favorites, later, table, id);
    }
    joined_updates_reach(submissions + collections + favorites + later, others, table, id);
}

/// What holds of the sources when a step is reached.
spec fn scans_hold(state: RepairView, start: Tables, now: Tables) -> bool {
    match state.step {
        RepairStep::MarkDeleted | RepairStep::ListSources => {
            &&& forall|v: int|
                0 <= v < now.videos.len() && (#[trigger] now.videos[v]).deleted
                    && !start.videos[v].deleted ==> state.marked && is_number_listed(
                    state.mismatched,
                    now.videos[v].id,
                )
            &&& forall|i: int|
                0 <= i < state.condemned.len() ==> is_listed(
                    state.mismatched,
                    #[trigger] state.condemned[i],
                )
        },
        RepairStep::EnableScan => forall|table: SourceTable, id: i32| #[trigger]
            is_source_of_marked(start, now, table, id) && is_unscanned(now, table, id)
                ==> is_updated(state.updates, table, id),
        RepairStep::Commit
        | RepairStep::CommitUnchanged
        | RepairStep::CountLeft
        | RepairStep::Finished => forall|table: SourceTable, id: i32| #[trigger]
            is_source_of_marked(start, now, table, id) ==> !is_unscanned(now, table, id),
        _ => true,
    }
}

spec fn is_number_listed(numbers: Seq<i64>, number: int) -> bool {
    exists|i: int| 0 <= i < numbers.len() && #[trigger] numbers[i] == number
}

proof fn step_keeps_scans(
    state: RepairView,
    reply: RepairReply,
    start: Tables,
    before: Tables,
    after: Tables,
)
    requires
        is_supplied(state),
        marks_hold(state, start, before),
        scans_hold(state, start, before),
        is_true_of(reply, state, before),
        is_carried_out(state, before, after),
    ensures
        scans_hold(repair_next(state, reply), start, after),
{
    let next = repair_next(state, reply);
    match state.step {
        RepairStep::ListAttached => {
            assert forall|i: int| 0 <= i < next.condemned.len() implies is_listed(
                state.mismatched,
                #[trigger] next.condemned[i],
            ) by {
                assert(is_listed(next.condemned, next.condemned[i]));
                without_excludes(state.mismatched, reply->Ids_0@, next.condemned[i]);
            }
        },
        RepairStep::MarkDeleted => {
            assert forall|v: int|
                0 <= v < after.videos.len() && (#[trigger] after.videos[v]).deleted
                    && !start.videos[v].deleted implies next.marked && is_number_listed(
                next.mismatched,
                after.videos[v].id,
            ) by {
                if before.videos[v].deleted {
                    assert(state.marked);
                } else {
                    assert(before.videos[v].id == state.condemned[0]);
                    assert(is_listed(state.mismatched, state.condemned[0]));
                }
            }
            assert forall|i: int| 0 <= i < next.condemned.len() implies is_listed(
                next.mismatched,
                #[trigger] next.condemned[i],
            ) by {
                assert(next.condemned[i] == state.condemned[i + 1]);
            }
        },
        RepairStep::ListSources => {
            assert forall|table: SourceTable, id: i32| #[trigger]
                is_source_of_marked(start, after, table, id) implies is_updated(
                updates_for(reply->Sources_0@),
                table,
                id,
            ) by {
                let v = choose|v: int|
                    0 <= v < after.videos.len() && (#[trigger] after.videos[v]).deleted
                        && !start.videos[v].deleted && source_in(after.videos[v].sources, table)
                        == Some(id);
                let row = before.videos[v].sources;
                assert(is_number_listed(state.mismatched, before.videos[v].id));
                assert(is_source_of_deleted(before, state.mismatched, row));
                assert(reply->Sources_0@.contains(row));
                every_source_is_updated(reply->Sources_0@, row, table, id);
            }
        },
        RepairStep::EnableScan => {
            let update = state.updates[0];
            assert forall|table: SourceTable, id: i32| #[trigger]
                is_source_of_marked(start, after, table, id) && is_unscanned(
                after,
                table,
                id,
            ) implies is_updated(next.updates, table, id) by {
                assert(is_source_of_marked(start, before, table, id));
                assert(is_unscanned(before, table, id));
                let k = choose|k: int|
                    0 <= k < state.updates.len() && (#[trigger] state.updates[k]).0 == table
                        && state.updates[k].1.contains(id);
                if k == 0 {
                    let i = choose|i: int| 0 <= i < update.1.len() && update.1[i] == id;
                    assert(update.1[i] == (table, id as int).1);
                } else {
                    assert(next.updates[k - 1] == state.updates[k]);
                }
            }
            if next.updates.len() == 0 {
                assert forall|table: SourceTable, id: i32| #[trigger]
                    is_source_of_marked(start, after, table, id) implies !is_unscanned(
                    after,
                    table,
                    id,
                ) by {
                    if is_unscanned(after, table, id) {
                        assert(is_updated(next.updates, table, id));
                    }
                }
            }
        },
        _ => {},
    }
}

proof fn course_keeps_scans(start: Tables, turns: Seq<Turn>)
    requires
        is_sound(start),
        is_course(start, turns),
    ensures
        scans_hold(repair_after(replies_of(turns)), start, tables_after(start, turns)),
    decreases turns.len(),
{
    if turns.len() > 0 {
        let front = turns.drop_last();
        course_keeps_marks(start, front);
        course_keeps_scans(start, front);
        assert(replies_of(turns).drop_last() =~= replies_of(front));
        step_keeps_scans(
            repair_after(replies_of(front)),
            turns.last().reply,
            start,
            tables_after(start, front),
            tables_after(start, turns),
        );
    }
}

/// After a repair the deleted videos of a source are looked for if the repair marked a video of it,
/// so that the video can come back.
pub proof fn sources_of_marked_are_scanned(
    start: Tables,
    turns: Seq<Turn>,
    table: SourceTable,
    id: i32,
)
    requires
        is_sound(start),
        is_course(start, turns),
        is_finished(turns),
        is_source_of_marked(start, tables_after(start, turns), table, id),
    ensures
        !is_unscanned(tables_after(start, turns), table, id),
{
    course_keeps_scans(start, turns);
}

/// The page is in the table as it is, and is not about to be removed as a duplicate.
spec fn stays(state: RepairView, tables: Tables, page: PageRow) -> bool {
    &&& tables.pages.contains(page)
    &&& forall|i: int| 0 <= i < state.duplicates.len() ==> #[trigger] state.duplicates[i] != page.id
}

/// The page refers to a video, and is no first page with another number than its video.
pub open spec fn is_right(tables: Tables, page: PageRow) -> bool {
    is_attached(tables, page) && !is_mismatched(tables, page)
}

proof fn right_stays_right(before: Tables, after: Tables, page: PageRow)
    requires
        videos_are_kept(before, after),
        is_right(before, page),
    ensures
        is_right(after, page),
{
    let v = choose|v: int|
        0 <= v < before.videos.len() && is_page_of(page, #[trigger] before.videos[v]);
    assert(is_page_of(page, after.videos[v]));
    if is_mismatched(after, page) {
        let w = choose|w: int|
            0 <= w < after.videos.len() && is_page_of(page, #[trigger] after.videos[w])
                && after.videos[w].cid is Some && after.videos[w].cid != Some(page.cid);
        assert(is_page_of(page, before.videos[w]));
    }
}

/// A step keeps the pages that are right.
proof fn step_keeps_page(
    state: RepairView,
    reply: RepairReply,
    before: Tables,
    after: Tables,
    page: PageRow,
)
    requires
        is_sound(before),
        is_supplied(state),
        is_true_of(reply, state, before),
        is_carried_out(state, before, after),
        stays(state, before, page),
        is_right(before, page),
    ensures
        videos_are_kept(before, after),
        stays(repair_next(state, reply), after, page),
        is_right(after, page),
{
    let next = repair_next(state, reply);
    let at = choose|at: int| 0 <= at < before.pages.len() && before.pages[at] == page;
    let v = choose|v: int|
        0 <= v < before.videos.len() && is_page_of(page, #[trigger] before.videos[v]);
    assert(page.video_id > 0);
    assert(before.pages[at].id > 0);
    match state.step {
        RepairStep::DropMismatched => {
            let gone = |page: PageRow| is_mismatched(before, page);
            kept_are_all(before.pages, |page: PageRow| !gone(page), page);
        },
        RepairStep::SetAside => {
            assert(after.pages[at] == page);
        },
        RepairStep::AttachFirst => {
            let may = |page: PageRow, video: VideoRow| may_be_first_of(before, page, video);
            assert(is_attached_or_left(before, before.pages[at], after.pages[at], may));
            assert(after.pages[at] == page);
        },
        RepairStep::ListConflicts => {
            assert forall|i: int| 0 <= i < next.duplicates.len() implies #[trigger] next.duplicates[i]
                != page.id by {
                let conflicts = reply->Conflicts_0@;
                let id = next.duplicates[i];
                duplicates_are_real(conflicts, id);
                assert(duplicates_in(conflicts).contains(id));
                let k = choose|k: int|
                    0 <= k < conflicts.len() && (#[trigger] conflicts[k]).page_id == id
                        && conflicts[k].page_cid == conflicts[k].existing_cid;
                assert(conflicts.contains(conflicts[k]));
                assert(is_conflict(before, conflicts[k]));
            }
        },
        RepairStep::DropDuplicate => {
            assert(state.duplicates[0] != page.id);
            let gone = |page: PageRow| page.id == state.duplicates[0];
            kept_are_all(before.pages, |page: PageRow| !gone(page), page);
            assert forall|i: int| 0 <= i < next.duplicates.len() implies #[trigger] next.duplicates[i]
                != page.id by {
                assert(next.duplicates[i] == state.duplicates[i + 1]);
            }
        },
        RepairStep::AttachRest => {
            let may = |page: PageRow, video: VideoRow| may_be_rest_of(before, page, video);
            assert(is_attached_or_left(before, before.pages[at], after.pages[at], may));
            assert(after.pages[at] == page);
        },
        RepairStep::DropOrphans => {
            let gone = |page: PageRow| page.video_id < 0;
            kept_are_all(before.pages, |page: PageRow| !gone(page), page);
        },
        _ => {},
    }
    right_stays_right(before, after, page);
}

proof fn course_keeps_page(start: Tables, turns: Seq<Turn>, page: PageRow)
    requires
        is_sound(start),
        is_course(start, turns),
        start.pages.contains(page),
        is_right(start, page),
    ensures
        stays(repair_after(replies_of(turns)), tables_after(start, turns), page),
        is_right(tables_after(start, turns), page),
    decreases turns.len(),
{
    if turns.len() > 0 {
        let front = turns.drop_last();
        course_keeps(start, front);
        course_keeps_marks(start, front);
        course_keeps_page(start, front, page);
        assert(replies_of(turns).drop_last() =~= replies_of(front));
        step_keeps_page(
            repair_after(replies_of(front)),
            turns.last().reply,
            tables_after(start, front),
            tables_after(start, turns),
            page,
        );
    }
}

/// A repair leaves the pages alone that are right: those that refer to a video and, if they are first
/// pages, have the number that it is recorded with.
pub proof fn right_pages_are_kept(start: Tables, turns: Seq<Turn>, page: PageRow)
    requires
        is_sound(start),
        is_course(start, turns),
        start.pages.contains(page),
        is_right(start, page),
    ensures
        tables_after(start, turns).pages.contains(page),
{
    course_keeps_page(start, turns, page);
}

/// Another first page of this number is lost too, or belongs to a video that is recorded with the
/// number.
pub open spec fn is_rival(tables: Tables, page: PageRow, other: PageRow) -> bool {
    &&& other != page
    &&& other.pid == 1
    &&& other.cid == page.cid
    &&& !is_attached(tables, other) || is_placed(tables, other)
}

/// The page refers to a video that is recorded with its number.
pub open spec fn is_placed(tables: Tables, page: PageRow) -> bool {
    exists|v: int|
        0 <= v < tables.videos.len() && is_page_of(page, #[trigger] tables.videos[v])
            && tables.videos[v].cid == Some(page.cid)
}

/// The page is a first page that refers to no video; a video is recorded with its number, and no
/// other page competes for it.
pub open spec fn is_alone(tables: Tables, page: PageRow) -> bool {
    &&& tables.pages.contains(page)
    &&& page.pid == 1
    &&& !is_attached(tables, page)
    &&& has_number(tables, page.cid)
    &&& forall|p: int|
        0 <= p < tables.pages.len() ==> !is_rival(tables, page, #[trigger] tables.pages[p])
}

/// The page refers to a video that is recorded with its number, and stays there.
spec fn is_settled(state: RepairView, tables: Tables, page: PageRow) -> bool {
    stays(state, tables, page) && is_right(tables, page) && is_placed(tables, page)
}

/// The page has found its video.
spec fn is_found(state: RepairView, tables: Tables, page: PageRow) -> bool {
    exists|video_id: int| is_settled(state, tables, #[trigger] with_video(page, video_id))
}

/// What holds of a page that is alone when a step is reached.
spec fn search_holds(state: RepairView, tables: Tables, page: PageRow) -> bool {
    match state.step {
        RepairStep::CountMismatched
        | RepairStep::ListMismatched
        | RepairStep::DropMismatched
        | RepairStep::CountLost
        | RepairStep::SetAside => is_alone(tables, page) && state.duplicates.len() == 0,
        RepairStep::AttachFirst => {
            &&& tables.pages.contains(with_video(page, -page.id))
            &&& must_be_first(tables, with_video(page, -page.id))
            &&& state.duplicates.len() == 0
        },
        RepairStep::CommitUnchanged => false,
        _ => is_found(state, tables, page),
    }
}

proof fn alone_after_deletion(before: Tables, after: Tables, page: PageRow)
    requires
        is_sound(before),
        is_alone(before, page),
        without_pages(before, after, |page: PageRow| is_mismatched(before, page)),
    ensures
        is_alone(after, page),
{
    let gone = |page: PageRow| is_mismatched(before, page);
    let keep = |page: PageRow| !gone(page);
    kept_are_all(before.pages, keep, page);
    assert(after.videos == before.videos);
    assert(forall|other: PageRow| #[trigger]
        is_attached(after, other) <==> is_attached(before, other));
    assert(forall|other: PageRow| #[trigger] is_placed(after, other) <==> is_placed(before, other));
    assert forall|p: int| 0 <= p < after.pages.len() implies !is_rival(
        after,
        page,
        #[trigger] after.pages[p],
    ) by {
        kept_are_among(before.pages, keep, p);
        let q = choose|q: int| 0 <= q < before.pages.len() && before.pages[q] == after.pages[p];
        assert(!is_rival(before, page, before.pages[q]));
    }
}

proof fn alone_is_first(before: Tables, after: Tables, page: PageRow)
    requires
        is_sound(before),
        first_pages_match(before),
        is_alone(before, page),
        set_aside(before, after),
    ensures
        after.pages.contains(with_video(page, -page.id)),
        must_be_first(after, with_video(page, -page.id)),
{
    let aside = with_video(page, -page.id);
    let at = choose|at: int| 0 <= at < before.pages.len() && before.pages[at] == page;
    assert(before.pages[at].id > 0);
    assert(after.pages[at] == aside);
    let n = choose|n: int|
        0 <= n < before.videos.len() && (#[trigger] before.videos[n]).cid == Some(page.cid);
    assert(after.videos[n].cid == Some(page.cid));
    assert forall|v: int|
        0 <= v < after.videos.len() && (#[trigger] after.videos[v]).cid == Some(
            aside.cid,
        ) implies waits_for(after, after.videos[v], aside) by {
        assert forall|p: int|
            0 <= p < after.pages.len() && (#[trigger] after.pages[p]).pid == 1 implies !is_page_of(
            after.pages[p],
            after.videos[v],
        ) by {
            assert(before.pages[p].id > 0);
            assert(before.videos[v].id > 0);
            if is_page_of(after.pages[p], after.videos[v]) {
                assert(is_page_of(before.pages[p], before.videos[v]));
                assert(before.videos[v].cid == Some(before.pages[p].cid));
                assert(is_placed(before, before.pages[p]));
                assert(is_rival(before, page, before.pages[p]));
            }
        }
    }
    assert forall|p: int|
        0 <= p < after.pages.len() && (#[trigger] after.pages[p]).video_id < 0
            && after.pages[p].pid == 1 && after.pages[p].cid == aside.cid implies after.pages[p]
        == aside by {
        if is_attached(before, before.pages[p]) {
            let v = choose|v: int|
                0 <= v < before.videos.len() && is_page_of(
                    before.pages[p],
                    #[trigger] before.videos[v],
                );
            assert(before.videos[v].id > 0);
        } else {
            assert(!is_rival(before, page, before.pages[p]));
        }
    }
}

proof fn first_is_found(state: RepairView, before: Tables, after: Tables, page: PageRow)
    requires
        is_sound(before),
        state.step == RepairStep::AttachFirst,
        is_carried_out(state, before, after),
        search_holds(state, before, page),
    ensures
        is_found(state, after, page),
{
    let aside = with_video(page, -page.id);
    let at = choose|at: int| 0 <= at < before.pages.len() && before.pages[at] == aside;
    let may = |page: PageRow, video: VideoRow| may_be_first_of(before, page, video);
    let must = |page: PageRow| must_be_first(before, page);
    assert(must(before.pages[at]));
    assert(is_attached_or_left(before, before.pages[at], after.pages[at], may));
    let v = choose|v: int|
        0 <= v < before.videos.len() && may(before.pages[at], #[trigger] before.videos[v])
            && after.pages[at] == with_video(before.pages[at], before.videos[v].id);
    let placed = with_video(page, before.videos[v].id);
    assert(after.pages[at] == placed);
    assert(is_page_of(placed, after.videos[v]));
    assert forall|w: int|
        0 <= w < after.videos.len() && is_page_of(
            placed,
            #[trigger] after.videos[w],
        ) implies after.videos[w].cid == Some(placed.cid) by {
        assert(before.videos[w].id == before.videos[v].id);
        assert(w == v);
    }
    assert(is_settled(state, after, with_video(page, before.videos[v].id)));
}

proof fn step_keeps_search(
    state: RepairView,
    reply: RepairReply,
    before: Tables,
    after: Tables,
    page: PageRow,
)
    requires
        is_sound(before),
        is_supplied(state),
        holds_at(state.step, before),
        is_true_of(reply, state, before),
        is_carried_out(state, before, after),
        search_holds(state, before, page),
    ensures
        search_holds(repair_next(state, reply), after, page),
{
    let next = repair_next(state, reply);
    match state.step {
        RepairStep::CountMismatched | RepairStep::ListMismatched => {},
        RepairStep::DropMismatched => {
            alone_after_deletion(before, after, page);
        },
        RepairStep::CountLost => {
            if reply->Count_0 == 0 {
                let lost = |page: PageRow| !is_attached(before, page);
                none_counted(before.pages, lost);
                let at = choose|at: int| 0 <= at < before.pages.len() && before.pages[at] == page;
                assert(!lost(before.pages[at]));
            }
        },
        RepairStep::SetAside => {
            alone_is_first(before, after, page);
        },
        RepairStep::AttachFirst => {
            first_is_found(state, before, after, page);
            let video_id = choose|video_id: int|
                is_settled(state, after, #[trigger] with_video(page, video_id));
            assert(is_settled(next, after, with_video(page, video_id)));
        },
        RepairStep::CommitUnchanged => {},
        _ => {
            let video_id = choose|video_id: int|
                is_settled(state, before, #[trigger] with_video(page, video_id));
            let placed = with_video(page, video_id);
            step_keeps_page(state, reply, before, after, placed);
            let v = choose|v: int|
                0 <= v < before.videos.len() && is_page_of(placed, #[trigger] before.videos[v])
                    && before.videos[v].cid == Some(placed.cid);
            assert(is_page_of(placed, after.videos[v]));
            assert(is_settled(next, after, with_video(page, video_id)));
        },
    }
}

proof fn course_keeps_search(start: Tables, turns: Seq<Turn>, page: PageRow)
    requires
        is_sound(start),
        is_course(start, turns),
        is_alone(start, page),
    ensures
        search_holds(repair_after(replies_of(turns)), tables_after(start, turns), page),
    decreases turns.len(),
{
    if turns.len() > 0 {
        let front = turns.drop_last();
        course_keeps(start, front);
        course_keeps_marks(start, front);
        course_keeps_search(start, front, page);
        assert(replies_of(turns).drop_last() =~= replies_of(front));
        step_keeps_search(
            repair_after(replies_of(front)),
            turns.last().reply,
            tables_after(start, front),
            tables_after(start, turns),
            page,
        );
    }
}

/// A repair brings a lost first page back to its video: where a video is recorded with the number of
/// the page, and no other page competes for it, the page is there afterwards, refers to a video with
/// its number and is otherwise unchanged.
pub proof fn lost_pages_find_their_video(
    start: Tables,
    turns: Seq<Turn>,
    page: PageRow,
) -> (video_id: int)
    requires
        is_sound(start),
        is_course(start, turns),
        is_finished(turns),
        is_alone(start, page),
    ensures
        tables_after(start, turns).pages.contains(with_video(page, video_id)),
        is_placed(tables_after(start, turns), with_video(page, video_id)),
{
    course_keeps_search(start, turns, page);
    let state = repair_after(replies_of(turns));
    choose|video_id: int|
        is_settled(state, tables_after(start, turns), #[trigger] with_video(page, video_id))
}

/// The video has a first page with another number than the one that it is recorded with.
pub open spec fn has_wrong_page(tables: Tables, video: VideoRow) -> bool {
    video.cid is Some && exists|p: int|
        0 <= p < tables.pages.len() && (#[trigger] tables.pages[p]).pid == 1 && is_page_of(
            tables.pages[p],
            video,
        ) && Some(tables.pages[p].cid) != video.cid
}

/// What holds of a video with a wrong page when a step is reached.
spec fn mark_is_owed(state: RepairView, start: Tables, now: Tables, v: int) -> bool {
    let id = start.videos[v].id;
    match state.step {
        RepairStep::CountMismatched | RepairStep::ListMismatched => now == start,
        RepairStep::DropMismatched => now == start && is_number_listed(state.mismatched, id),
        RepairStep::CountLost => !all_attached(now) && is_number_listed(state.mismatched, id),
        RepairStep::SetAside
        | RepairStep::AttachFirst
        | RepairStep::ListConflicts
        | RepairStep::DropDuplicate
        | RepairStep::AttachRest
        | RepairStep::CountOrphans
        | RepairStep::DropOrphans
        | RepairStep::ListAttached => is_number_listed(state.mismatched, id),
        RepairStep::MarkDeleted => !is_bare(now, id) || now.videos[v].deleted || is_number_listed(
            state.condemned,
            id,
        ),
        RepairStep::CommitUnchanged => false,
        _ => !is_bare(now, id) || now.videos[v].deleted,
    }
}

proof fn wrong_page_is_listed(state: RepairView, reply: RepairReply, tables: Tables, v: int)
    requires
        0 <= v < tables.videos.len(),
        has_wrong_page(tables, tables.videos[v]),
        tables.videos[v].id <= i64::MAX,
        tables.videos[v].id > 0,
        state.step == RepairStep::CountMismatched || state.step == RepairStep::ListMismatched,
        is_true_of(reply, state, tables),
    ensures
        state.step == RepairStep::CountMismatched ==> reply->Count_0 > 0,
        state.step == RepairStep::ListMismatched ==> is_number_listed(
            reply->Ids_0@,
            tables.videos[v].id,
        ),
{
    let video = tables.videos[v];
    let p = choose|p: int|
        0 <= p < tables.pages.len() && (#[trigger] tables.pages[p]).pid == 1 && is_page_of(
            tables.pages[p],
            video,
        ) && Some(tables.pages[p].cid) != video.cid;
    assert(is_page_of(tables.pages[p], tables.videos[v]));
    assert(is_mismatched(tables, tables.pages[p]));
    let wrong = |page: PageRow| is_mismatched(tables, page);
    if state.step == RepairStep::CountMismatched {
        if reply->Count_0 <= 0 {
            none_counted(tables.pages, wrong);
            assert(!wrong(tables.pages[p]));
        }
    } else {
        let id = video.id as i64;
        assert(wrong(tables.pages[p]) && tables.pages[p].video_id == id);
        assert(is_listed(reply->Ids_0@, id));
        let i = choose|i: int| 0 <= i < reply->Ids_0@.len() && #[trigger] reply->Ids_0@[i] == id;
        assert(reply->Ids_0@[i] == video.id);
    }
}

proof fn lost_pages_stay_lost(before: Tables, after: Tables)
    requires
        !all_attached(before),
        without_pages(before, after, |page: PageRow| is_mismatched(before, page)),
    ensures
        !all_attached(after),
{
    let p = choose|p: int|
        0 <= p < before.pages.len() && !is_attached(before, #[trigger] before.pages[p]);
    let page = before.pages[p];
    let gone = |page: PageRow| is_mismatched(before, page);
    assert(!is_mismatched(before, page));
    kept_are_all(before.pages, |page: PageRow| !gone(page), page);
    let q = choose|q: int| 0 <= q < after.pages.len() && after.pages[q] == page;
    assert(after.videos == before.videos);
    assert(forall|other: PageRow| #[trigger]
        is_attached(after, other) <==> is_attached(before, other));
    assert(!is_attached(after, after.pages[q]));
}

proof fn step_keeps_the_debt(
    state: RepairView,
    reply: RepairReply,
    start: Tables,
    before: Tables,
    after: Tables,
    v: int,
)
    requires
        is_sound(start),
        is_supplied(state),
        0 <= v < start.videos.len(),
        start.videos[v].id <= i64::MAX,
        has_wrong_page(start, start.videos[v]),
        !all_attached(start),
        marks_hold(state, start, before),
        mark_is_owed(state, start, before, v),
        is_true_of(reply, state, before),
        is_carried_out(state, before, after),
    ensures
        mark_is_owed(repair_next(state, reply), start, after, v),
{
    let id = start.videos[v].id;
    let next = repair_next(state, reply);
    assert(start.videos[v].id > 0);
    match state.step {
        RepairStep::CountMismatched | RepairStep::ListMismatched => {
            wrong_page_is_listed(state, reply, start, v);
        },
        RepairStep::DropMismatched => {
            lost_pages_stay_lost(before, after);
        },
        RepairStep::CountLost => {
            if reply->Count_0 == 0 {
                let lost = |page: PageRow| !is_attached(before, page);
                none_counted(before.pages, lost);
                let p = choose|p: int|
                    0 <= p < before.pages.len() && !is_attached(before, #[trigger] before.pages[p]);
                assert(!lost(before.pages[p]));
            }
        },
        RepairStep::ListAttached => {
            let number = id as i64;
            let ids = reply->Ids_0@;
            without_excludes(state.mismatched, ids, number);
            let m = choose|m: int|
                0 <= m < state.mismatched.len() && #[trigger] state.mismatched[m] == id;
            assert(state.mismatched[m] == number);
            assert(is_listed(state.mismatched, number));
            if is_listed(ids, number) {
                let listed = |page: PageRow| page.video_id > 0;
                let p = choose|p: int|
                    0 <= p < before.pages.len() && listed(#[trigger] before.pages[p])
                        && before.pages[p].video_id == number;
                assert(!is_bare(after, id)) by {
                    assert(after.pages[p].video_id == id);
                }
            } else {
                assert(is_listed(next.condemned, number));
                let i = choose|i: int|
                    0 <= i < next.condemned.len() && #[trigger] next.condemned[i] == number;
                assert(next.condemned[i] == id);
            }
        },
        RepairStep::MarkDeleted => {
            assert(after.pages == before.pages);
            assert(is_bare(after, id) == is_bare(before, id));
            if is_bare(before, id) && !before.videos[v].deleted {
                let i = choose|i: int|
                    0 <= i < state.condemned.len() && #[trigger] state.condemned[i] == id;
                if i == 0 {
                    assert(after.videos[v].deleted);
                } else {
                    assert(next.condemned[i - 1] == id);
                }
            }
        },
        _ => {},
    }
}

proof fn course_keeps_the_debt(start: Tables, turns: Seq<Turn>, v: int)
    requires
        is_sound(start),
        is_course(start, turns),
        0 <= v < start.videos.len(),
        start.videos[v].id <= i64::MAX,
        has_wrong_page(start, start.videos[v]),
        !all_attached(start),
    ensures
        mark_is_owed(repair_after(replies_of(turns)), start, tables_after(start, turns), v),
    decreases turns.len(),
{
    if turns.len() > 0 {
        let front = turns.drop_last();
        course_keeps_marks(start, front);
        course_keeps_the_debt(start, front, v);
        assert(replies_of(turns).drop_last() =~= replies_of(front));
        step_keeps_the_debt(
            repair_after(replies_of(front)),
            turns.last().reply,
            start,
            tables_after(start, front),
            tables_after(start, turns),
            v,
        );
    }
}

/// A video whose first page was wrong, and that has no page after the repair, is marked as deleted,
/// so that it can be found anew. That is so wherever there were pages without a video; a repair that
/// finds none ends before.
pub proof fn videos_left_bare_are_marked(start: Tables, turns: Seq<Turn>, v: int)
    requires
        is_sound(start),
        is_course(start, turns),
        is_finished(turns),
        0 <= v < start.videos.len(),
        start.videos[v].id <= i64::MAX,
        has_wrong_page(start, start.videos[v]),
        !all_attached(start),
        is_bare(tables_after(start, turns), start.videos[v].id),
    ensures
        tables_after(start, turns).videos[v].deleted,
{
    course_keeps_the_debt(start, turns, v);
}

/// The page is not the first one and refers to no video, and `first` is a first page in its folder
/// that is right and has the number of its video.
pub open spec fn follows(tables: Tables, page: PageRow, first: PageRow) -> bool {
    &&& tables.pages.contains(page)
    &&& tables.pages.contains(first)
    &&& page.pid > 1
    &&& !is_attached(tables, page)
    &&& first.pid == 1
    &&& page.folder is Some
    &&& first.folder == page.folder
    &&& is_right(tables, first)
    &&& is_placed(tables, first)
}

spec fn is_home(state: RepairView, tables: Tables, page: PageRow) -> bool {
    exists|video_id: int|
        stays(state, tables, #[trigger] with_video(page, video_id)) && is_right(
            tables,
            with_video(page, video_id),
        )
}

/// What holds of a page that follows another when a step is reached.
spec fn following_holds(state: RepairView, tables: Tables, page: PageRow, first: PageRow) -> bool {
    &&& stays(state, tables, first)
    &&& is_right(tables, first)
    &&& is_placed(tables, first)
    &&& match state.step {
        RepairStep::CountMismatched
        | RepairStep::ListMismatched
        | RepairStep::DropMismatched
        | RepairStep::CountLost
        | RepairStep::SetAside => tables.pages.contains(page) && !is_attached(tables, page)
            && state.duplicates.len() == 0,
        RepairStep::AttachFirst
        | RepairStep::ListConflicts
        | RepairStep::DropDuplicate
        | RepairStep::AttachRest => stays(state, tables, with_video(page, -page.id)),
        RepairStep::CommitUnchanged => false,
        _ => is_home(state, tables, page),
    }
}

proof fn rest_is_attached(
    state: RepairView,
    before: Tables,
    after: Tables,
    page: PageRow,
    first: PageRow,
)
    requires
        is_sound(before),
        state.step == RepairStep::AttachRest,
        is_carried_out(state, before, after),
        following_holds(state, before, page, first),
        page.id > 0,
        page.pid > 1,
        first.pid == 1,
        page.folder is Some,
        first.folder == page.folder,
    ensures
        is_home(state, after, page),
{
    let aside = with_video(page, -page.id);
    let may = |page: PageRow, video: VideoRow| may_be_rest_of(before, page, video);
    let must = |page: PageRow| must_be_rest(before, page);
    let at = choose|at: int| 0 <= at < before.pages.len() && before.pages[at] == aside;
    let p = choose|p: int| 0 <= p < before.pages.len() && before.pages[p] == first;
    let v = choose|v: int|
        0 <= v < before.videos.len() && is_page_of(first, #[trigger] before.videos[v])
            && before.videos[v].cid == Some(first.cid);
    assert(before.pages[p].pid == 1 && before.pages[p].folder == aside.folder);
    assert(may_be_rest_of(before, aside, before.videos[v]));
    assert(must_be_rest(before, aside));
    assert(must(before.pages[at]));
    assert(is_attached_or_left(before, before.pages[at], after.pages[at], may));
    let w = choose|w: int|
        0 <= w < before.videos.len() && may(before.pages[at], #[trigger] before.videos[w])
            && after.pages[at] == with_video(before.pages[at], before.videos[w].id);
    let home = with_video(page, before.videos[w].id);
    assert(after.pages[at] == home);
    assert(is_page_of(home, after.videos[w]));
    assert(stays(state, after, with_video(page, before.videos[w].id)));
    assert(is_right(after, home));
}

proof fn placed_stays_placed(before: Tables, after: Tables, page: PageRow)
    requires
        videos_are_kept(before, after),
        is_placed(before, page),
    ensures
        is_placed(after, page),
{
    let v = choose|v: int|
        0 <= v < before.videos.len() && is_page_of(page, #[trigger] before.videos[v])
            && before.videos[v].cid == Some(page.cid);
    assert(is_page_of(page, after.videos[v]));
}

proof fn step_keeps_following(
    state: RepairView,
    reply: RepairReply,
    before: Tables,
    after: Tables,
    page: PageRow,
    first: PageRow,
)
    requires
        is_sound(before),
        is_supplied(state),
        is_true_of(reply, state, before),
        is_carried_out(state, before, after),
        following_holds(state, before, page, first),
        page.id > 0,
        page.pid > 1,
        first.pid == 1,
        page.folder is Some,
        first.folder == page.folder,
    ensures
        following_holds(repair_next(state, reply), after, page, first),
{
    let next = repair_next(state, reply);
    let aside = with_video(page, -page.id);
    step_keeps_page(state, reply, before, after, first);
    placed_stays_placed(before, after, first);
    match state.step {
        RepairStep::CountMismatched | RepairStep::ListMismatched => {},
        RepairStep::DropMismatched => {
            let gone = |page: PageRow| is_mismatched(before, page);
            kept_are_all(before.pages, |page: PageRow| !gone(page), page);
            assert(after.videos == before.videos);
            assert(is_attached(after, page) ==> is_attached(before, page));
        },
        RepairStep::CountLost => {
            if reply->Count_0 == 0 {
                let lost = |page: PageRow| !is_attached(before, page);
                none_counted(before.pages, lost);
                let at = choose|at: int| 0 <= at < before.pages.len() && before.pages[at] == page;
                assert(!lost(before.pages[at]));
            }
        },
        RepairStep::SetAside => {
            let at = choose|at: int| 0 <= at < before.pages.len() && before.pages[at] == page;
            assert(after.pages[at] == aside);
        },
        RepairStep::AttachFirst => {
            let at = choose|at: int| 0 <= at < before.pages.len() && before.pages[at] == aside;
            let may = |page: PageRow, video: VideoRow| may_be_first_of(before, page, video);
            assert(is_attached_or_left(before, before.pages[at], after.pages[at], may));
            assert(after.pages[at] == aside);
        },
        RepairStep::ListConflicts => {
            let at = choose|at: int| 0 <= at < before.pages.len() && before.pages[at] == aside;
            assert forall|i: int| 0 <= i < next.duplicates.len() implies #[trigger] next.duplicates[i]
                != aside.id by {
                let conflicts = reply->Conflicts_0@;
                let id = next.duplicates[i];
                duplicates_are_real(conflicts, id);
                assert(duplicates_in(conflicts).contains(id));
                let k = choose|k: int|
                    0 <= k < conflicts.len() && (#[trigger] conflicts[k]).page_id == id
                        && conflicts[k].page_cid == conflicts[k].existing_cid;
                assert(conflicts.contains(conflicts[k]));
                assert(is_conflict(before, conflicts[k]));
            }
        },
        RepairStep::DropDuplicate => {
            assert(state.duplicates[0] != aside.id);
            let gone = |page: PageRow| page.id == state.duplicates[0];
            kept_are_all(before.pages, |page: PageRow| !gone(page), aside);
            assert forall|i: int| 0 <= i < next.duplicates.len() implies #[trigger] next.duplicates[i]
                != aside.id by {
                assert(next.duplicates[i] == state.duplicates[i + 1]);
            }
        },
        RepairStep::AttachRest => {
            rest_is_attached(state, before, after, page, first);
            let video_id = choose|video_id: int|
                stays(state, after, #[trigger] with_video(page, video_id)) && is_right(
                    after,
                    with_video(page, video_id),
                );
            assert(stays(next, after, with_video(page, video_id)));
        },
        RepairStep::CommitUnchanged => {},
        _ => {
            let video_id = choose|video_id: int|
                stays(state, before, #[trigger] with_video(page, video_id)) && is_right(
                    before,
                    with_video(page, video_id),
                );
            step_keeps_page(state, reply, before, after, with_video(page, video_id));
            assert(stays(next, after, with_video(page, video_id)));
        },
    }
}

proof fn course_keeps_following(start: Tables, turns: Seq<Turn>, page: PageRow, first: PageRow)
    requires
        is_sound(start),
        is_course(start, turns),
        follows(start, page, first),
    ensures
        following_holds(
            repair_after(replies_of(turns)),
            tables_after(start, turns),
            page,
            first,
        ),
    decreases turns.len(),
{
    let at = choose|at: int| 0 <= at < start.pages.len() && start.pages[at] == page;
    assert(start.pages[at].id > 0);
    if turns.len() > 0 {
        let front = turns.drop_last();
        course_keeps(start, front);
        course_keeps_marks(start, front);
        course_keeps_following(start, front, page, first);
        assert(replies_of(turns).drop_last() =~= replies_of(front));
        step_keeps_following(
            repair_after(replies_of(front)),
            turns.last().reply,
            tables_after(start, front),
            tables_after(start, turns),
            page,
            first,
        );
    }
}

/// A repair brings a lost page that is not the first one to a video, where a first page in its folder
/// belongs to the video of its number: the page is there afterwards, refers to a video, and is
/// otherwise unchanged.
pub proof fn lost_pages_follow_their_first(
    start: Tables,
    turns: Seq<Turn>,
    page: PageRow,
    first: PageRow,
) -> (video_id: int)
    requires
        is_sound(start),
        is_course(start, turns),
        is_finished(turns),
        follows(start, page, first),
    ensures
        tables_after(start, turns).pages.contains(with_video(page, video_id)),
        is_attached(tables_after(start, turns), with_video(page, video_id)),
{
    course_keeps_following(start, turns, page, first);
    let state = repair_after(replies_of(turns));
    let now = tables_after(start, turns);
    choose|video_id: int|
        stays(state, now, #[trigger] with_video(page, video_id)) && is_right(
            now,
            with_video(page, video_id),
        )
}

}
