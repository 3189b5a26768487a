//! What the statements of a repair do to the tables.
//!
//! The database carries out the statements. What each of them changes, and what it answers, is
//! written down here as a relation: the author's reading of the statements, which no proof holds the
//! database to. The module `repaired` says what follows from it for a repair as a whole.

use vstd::prelude::*;

use crate::repair::{repair_after, Conflict, RepairReply, RepairStep, RepairView};
use crate::source_update::{SourceRow, SourceTable};
use crate::sql::is_listed;

verus! {

/// A row of the table of pages.
pub struct PageRow {
    pub id: int,
    pub video_id: int,
    pub pid: int,
    pub cid: int,
    /// The folder of its file, if it has a place.
    pub folder: Option<Seq<char>>,
}

/// A row of the table of videos.
pub struct VideoRow {
    pub id: int,
    pub cid: Option<int>,
    pub deleted: bool,
    pub sources: SourceRow,
}

/// The tables that a repair works on.
pub struct Tables {
    pub pages: Seq<PageRow>,
    pub videos: Seq<VideoRow>,
    /// For each source, whether its deleted videos are looked for.
    pub scans: Map<(SourceTable, int), bool>,
}

/// Numbers of rows are positive, and no two rows of a table have the same.
pub open spec fn is_sound(tables: Tables) -> bool {
    &&& forall|i: int| 0 <= i < tables.pages.len() ==> (#[trigger] tables.pages[i]).id > 0
    &&& forall|i: int| 0 <= i < tables.videos.len() ==> (#[trigger] tables.videos[i]).id > 0
    &&& forall|i: int, j: int|
        0 <= i < j < tables.pages.len() ==> (#[trigger] tables.pages[i]).id != (
        #[trigger] tables.pages[j]).id
    &&& forall|i: int, j: int|
        0 <= i < j < tables.videos.len() ==> (#[trigger] tables.videos[i]).id != (
        #[trigger] tables.videos[j]).id
}

/// The page belongs to the video.
pub open spec fn is_page_of(page: PageRow, video: VideoRow) -> bool {
    page.video_id == video.id
}

/// The page refers to a video.
pub open spec fn is_attached(tables: Tables, page: PageRow) -> bool {
    exists|v: int| 0 <= v < tables.videos.len() && is_page_of(page, #[trigger] tables.videos[v])
}

/// The page is the first one of a video that is recorded with the number of another page.
pub open spec fn is_mismatched(tables: Tables, page: PageRow) -> bool {
    page.pid == 1 && exists|v: int|
        0 <= v < tables.videos.len() && is_page_of(page, #[trigger] tables.videos[v])
            && tables.videos[v].cid is Some && tables.videos[v].cid != Some(page.cid)
}

/// Every page refers to a video.
pub open spec fn all_attached(tables: Tables) -> bool {
    forall|p: int| 0 <= p < tables.pages.len() ==> is_attached(tables, #[trigger] tables.pages[p])
}

/// Every first page has the number that its video is recorded with, if it is recorded with one.
pub open spec fn first_pages_match(tables: Tables) -> bool {
    forall|p: int, v: int|
        0 <= p < tables.pages.len() && 0 <= v < tables.videos.len() && is_page_of(
            #[trigger] tables.pages[p],
            #[trigger] tables.videos[v],
        ) && tables.pages[p].pid == 1 && tables.videos[v].cid is Some ==> tables.videos[v].cid
            == Some(tables.pages[p].cid)
}

/// The pages that meet a condition are gone, and nothing else is changed.
pub open spec fn without_pages(
    before: Tables,
    after: Tables,
    gone: spec_fn(PageRow) -> bool,
) -> bool {
    after == (Tables { pages: before.pages.filter(|page: PageRow| !gone(page)), ..before })
}

/// The page refers to another video now, and is otherwise the same.
pub open spec fn with_video(page: PageRow, video_id: int) -> PageRow {
    PageRow { video_id, ..page }
}

/// Pages that refer to no video are set aside under the negative of their own number.
pub open spec fn set_aside(before: Tables, after: Tables) -> bool {
    after == (Tables {
        pages: before.pages.map_values(
            |page: PageRow|
                if is_attached(before, page) {
                    page
                } else {
                    with_video(page, -page.id)
                },
        ),
        ..before
    })
}

/// The video is recorded with the number of this page and has no first page.
pub open spec fn waits_for(before: Tables, video: VideoRow, page: PageRow) -> bool {
    video.cid == Some(page.cid) && forall|p: int|
        0 <= p < before.pages.len() && (#[trigger] before.pages[p]).pid == 1
            ==> !is_page_of(before.pages[p], video)
}

/// The page may be attached to the video as its first one.
pub open spec fn may_be_first_of(before: Tables, page: PageRow, video: VideoRow) -> bool {
    page.video_id < 0 && page.pid == 1 && waits_for(before, video, page)
}

/// The page is attached for certain: videos are recorded with its number, none of them has a first
/// page, and no other page could come first.
pub open spec fn must_be_first(before: Tables, page: PageRow) -> bool {
    &&& page.video_id < 0
    &&& page.pid == 1
    &&& has_number(before, page.cid)
    &&& forall|v: int|
        0 <= v < before.videos.len() && (#[trigger] before.videos[v]).cid == Some(page.cid)
            ==> waits_for(before, before.videos[v], page)
    &&& forall|p: int|
        0 <= p < before.pages.len() && (#[trigger] before.pages[p]).video_id < 0
            && before.pages[p].pid == 1 && before.pages[p].cid == page.cid ==> before.pages[p]
            == page
}

/// A video is recorded with this number.
pub open spec fn has_number(tables: Tables, cid: int) -> bool {
    exists|v: int| 0 <= v < tables.videos.len() && (#[trigger] tables.videos[v]).cid == Some(cid)
}

/// The page may be attached to the video as one of its other pages: a first page in the same folder
/// has the number of the video.
pub open spec fn may_be_rest_of(before: Tables, page: PageRow, video: VideoRow) -> bool {
    page.video_id < 0 && page.pid > 1 && page.folder is Some && exists|p: int|
        0 <= p < before.pages.len() && (#[trigger] before.pages[p]).pid == 1
            && before.pages[p].folder == page.folder && video.cid == Some(before.pages[p].cid)
}

/// The page is attached for certain: there is a video that it may be attached to.
pub open spec fn must_be_rest(before: Tables, page: PageRow) -> bool {
    exists|v: int|
        0 <= v < before.videos.len() && may_be_rest_of(before, page, #[trigger] before.videos[v])
}

/// A page is left as it is, or attached to a video that it may be attached to.
pub open spec fn is_attached_or_left(
    before: Tables,
    page: PageRow,
    now: PageRow,
    may: spec_fn(PageRow, VideoRow) -> bool,
) -> bool {
    now == page || exists|v: int|
        0 <= v < before.videos.len() && may(page, #[trigger] before.videos[v]) && now == with_video(
            page,
            before.videos[v].id,
        )
}

/// Pages are attached to videos that they may be attached to, some of them for certain. Which of
/// several videos it is, and which of several pages come first, is left open.
pub open spec fn attaches(
    before: Tables,
    after: Tables,
    may: spec_fn(PageRow, VideoRow) -> bool,
    must: spec_fn(PageRow) -> bool,
) -> bool {
    &&& after.videos == before.videos
    &&& after.scans == before.scans
    &&& after.pages.len() == before.pages.len()
    &&& forall|p: int|
        0 <= p < before.pages.len() ==> is_attached_or_left(
            before,
            before.pages[p],
            #[trigger] after.pages[p],
            may,
        ) && (must(before.pages[p]) ==> after.pages[p] != before.pages[p])
}

/// The video is marked as deleted.
pub open spec fn marks_deleted(before: Tables, after: Tables, video_id: int) -> bool {
    after == (Tables {
        videos: before.videos.map_values(
            |video: VideoRow|
                if video.id == video_id {
                    VideoRow { deleted: true, ..video }
                } else {
                    video
                },
        ),
        ..before
    })
}

/// The deleted videos of these sources are looked for.
pub open spec fn enables_scans(
    before: Tables,
    after: Tables,
    table: SourceTable,
    ids: Seq<i32>,
) -> bool {
    after == (Tables {
        scans: before.scans.map_entries(
            |source: (SourceTable, int), scanned: bool|
                scanned || (source.0 == table && exists|i: int|
                    0 <= i < ids.len() && #[trigger] ids[i] == source.1),
        ),
        ..before
    })
}

/// What the statement of a step does to the tables, as the author reads it. One that fails ends the
/// repair, and all that was done is undone.
pub open spec fn is_carried_out(state: RepairView, before: Tables, after: Tables) -> bool {
    match state.step {
        RepairStep::DropMismatched => without_pages(
            before,
            after,
            |page: PageRow| is_mismatched(before, page),
        ),
        RepairStep::SetAside => set_aside(before, after),
        RepairStep::AttachFirst => attaches(
            before,
            after,
            |page: PageRow, video: VideoRow| may_be_first_of(before, page, video),
            |page: PageRow| must_be_first(before, page),
        ),
        RepairStep::DropDuplicate => without_pages(
            before,
            after,
            |page: PageRow| page.id == state.duplicates[0],
        ),
        RepairStep::AttachRest => attaches(
            before,
            after,
            |page: PageRow, video: VideoRow| may_be_rest_of(before, page, video),
            |page: PageRow| must_be_rest(before, page),
        ),
        RepairStep::DropOrphans => without_pages(before, after, |page: PageRow| page.video_id < 0),
        RepairStep::MarkDeleted => marks_deleted(before, after, state.condemned[0] as int),
        RepairStep::EnableScan => enables_scans(
            before,
            after,
            state.updates[0].0,
            state.updates[0].1,
        ),
        _ => after == before,
    }
}

/// The number of pages that meet a condition.
pub open spec fn page_count(tables: Tables, counted: spec_fn(PageRow) -> bool) -> nat {
    tables.pages.filter(counted).len()
}

/// The list holds the numbers of the videos of the pages that meet a condition.
pub open spec fn lists_videos_of(
    tables: Tables,
    ids: Seq<i64>,
    listed: spec_fn(PageRow) -> bool,
) -> bool {
    forall|id: i64| #[trigger]
        is_listed(ids, id) <==> exists|p: int|
            0 <= p < tables.pages.len() && listed(#[trigger] tables.pages[p])
                && tables.pages[p].video_id == id
}

/// The conflict is that of a first page that was set aside with the first page of a video that is
/// recorded with its number.
pub open spec fn is_conflict(tables: Tables, conflict: Conflict) -> bool {
    exists|p: int, q: int, v: int|
        0 <= p < tables.pages.len() && 0 <= q < tables.pages.len() && 0 <= v < tables.videos.len()
            && (#[trigger] tables.pages[p]).video_id < 0 && tables.pages[p].pid == 1
            && tables.pages[p].id == conflict.page_id && tables.pages[p].cid == conflict.page_cid
            && (#[trigger] tables.videos[v]).cid == Some(tables.pages[p].cid) && is_page_of(
            #[trigger] tables.pages[q],
            tables.videos[v],
        ) && tables.pages[q].pid == 1 && tables.pages[q].cid == conflict.existing_cid
}

/// The row is that of a video that is listed and marked as deleted.
pub open spec fn is_source_of_deleted(tables: Tables, listed: Seq<i64>, row: SourceRow) -> bool {
    exists|v: int, i: int|
        0 <= v < tables.videos.len() && 0 <= i < listed.len() && (#[trigger] tables.videos[v]).id
            == #[trigger] listed[i] && tables.videos[v].deleted && tables.videos[v].sources == row
}

/// The answer to the statement of a step tells what is in the tables before it.
pub open spec fn is_true_of(reply: RepairReply, state: RepairView, tables: Tables) -> bool {
    match state.step {
        RepairStep::CountMismatched => reply is Count && reply->Count_0 == page_count(
            tables,
            |page: PageRow| is_mismatched(tables, page),
        ),
        RepairStep::CountLost | RepairStep::CountLeft => reply is Count && reply->Count_0
            == page_count(tables, |page: PageRow| !is_attached(tables, page)),
        RepairStep::CountOrphans => reply is Count && reply->Count_0 == page_count(
            tables,
            |page: PageRow| page.video_id < 0,
        ),
        RepairStep::ListMismatched => reply is Ids && lists_videos_of(
            tables,
            reply->Ids_0@,
            |page: PageRow| is_mismatched(tables, page),
        ),
        RepairStep::ListAttached => reply is Ids && lists_videos_of(
            tables,
            reply->Ids_0@,
            |page: PageRow| page.video_id > 0,
        ),
        RepairStep::ListConflicts => reply is Conflicts && forall|conflict: Conflict| #[trigger]
            reply->Conflicts_0@.contains(conflict) <==> is_conflict(tables, conflict),
        RepairStep::MarkDeleted => reply is Affected && (reply->Affected_0 > 0 <==> exists|v: int|
            0 <= v < tables.videos.len() && (#[trigger] tables.videos[v]).id == state.condemned[0]),
        RepairStep::ListSources => reply is Sources && forall|row: SourceRow| #[trigger]
            reply->Sources_0@.contains(row) <==> is_source_of_deleted(
                tables,
                state.mismatched,
                row,
            ),
        _ => reply is Affected,
    }
}

/// A step of a repair that was carried out: what the database answered, and the tables afterwards.
pub struct Turn {
    pub reply: RepairReply,
    pub tables: Tables,
}

/// The answers of the database.
pub open spec fn replies_of(turns: Seq<Turn>) -> Seq<RepairReply> {
    turns.map_values(|turn: Turn| turn.reply)
}

/// The tables after these turns.
pub open spec fn tables_after(start: Tables, turns: Seq<Turn>) -> Tables {
    if turns.len() == 0 {
        start
    } else {
        turns.last().tables
    }
}

/// The turns are those of a repair that finds the tables as they are at the start, while nobody else
/// changes them.
pub open spec fn is_course(start: Tables, turns: Seq<Turn>) -> bool
    decreases turns.len(),
{
    turns.len() > 0 ==> {
        let front = turns.drop_last();
        let state = repair_after(replies_of(front));
        let before = tables_after(start, front);
        &&& is_course(start, front)
        &&& is_true_of(turns.last().reply, state, before)
        &&& is_carried_out(state, before, turns.last().tables)
    }
}

/// Two rows are the same but for the video that they refer to.
pub open spec fn is_same_page(a: PageRow, b: PageRow) -> bool {
    a == with_video(b, a.video_id)
}

/// The page is in the table, though it may refer to another video there.
pub open spec fn holds_page(tables: Tables, page: PageRow) -> bool {
    exists|q: int| 0 <= q < tables.pages.len() && is_same_page(page, #[trigger] tables.pages[q])
}

/// No page was added.
pub open spec fn pages_come_from(start: Tables, now: Tables) -> bool {
    forall|p: int| 0 <= p < now.pages.len() ==> holds_page(start, #[trigger] now.pages[p])
}

}
