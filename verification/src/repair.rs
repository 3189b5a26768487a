//! The repair of page records that point to no video: what is asked of the database, and in which
//! order.
//!
//! Pages that point to no video are first set aside under negative numbers, so that no two of them
//! get in each other's way, and are then attached to the video that they belong to. What this achieves
//! is stated in the module `repaired`.

use vstd::prelude::*;

use crate::source_update::{
    source_updates, table_name, table_text, updates_for, updates_view, SourceRow, SourceTable,
    SourceUpdate,
};
use crate::sql::{
    is_listed, json_numbers, numbers_to_json, numbers_without, placeholder_list, placeholders,
    values_view, without, without_excludes, SqlStatement, SqlValue, ValueView,
};

verus! {

/// What is asked of the database next.
#[derive(Debug, Clone, Copy, PartialEq, Eq, Structural)]
pub enum RepairStep {
    /// Counts the first pages whose number differs from that of their video.
    CountMismatched,
    /// Lists the videos of these pages.
    ListMismatched,
    /// Removes these pages.
    DropMismatched,
    /// Counts the pages that point to no video.
    CountLost,
    /// Ends a repair that found no such page.
    CommitUnchanged,
    /// Gives each of these pages a negative number in place of the video.
    SetAside,
    /// Attaches the first pages whose video has none.
    AttachFirst,
    /// Lists the first pages whose video has one.
    ListConflicts,
    /// Removes a page that doubles another one.
    DropDuplicate,
    /// Attaches the other pages to the video of the first page in their folder.
    AttachRest,
    /// Counts the pages that could not be attached.
    CountOrphans,
    /// Removes these pages.
    DropOrphans,
    /// Lists the videos that have pages.
    ListAttached,
    /// Marks a video as deleted.
    MarkDeleted,
    /// Lists the sources of the videos that were marked.
    ListSources,
    /// Has the deleted videos of some sources looked for.
    EnableScan,
    /// Ends the repair.
    Commit,
    /// Counts the pages that still point to no video.
    CountLeft,
    /// Nothing more.
    Finished,
}

/// Two first pages of one video.
#[derive(Debug, Clone, Copy)]
pub struct Conflict {
    /// The page that was set aside.
    pub page_id: i32,
    pub page_cid: i64,
    /// The number of the page that the video has.
    pub existing_cid: i64,
}

/// What the database answers.
#[derive(Debug)]
pub enum RepairReply {
    Count(i64),
    Ids(Vec<i64>),
    Conflicts(Vec<Conflict>),
    Sources(Vec<SourceRow>),
    Affected(u64),
}

/// The answer belongs to the question.
pub open spec fn answers(step: RepairStep, reply: RepairReply) -> bool {
    match step {
        RepairStep::CountMismatched
        | RepairStep::CountLost
        | RepairStep::CountOrphans
        | RepairStep::CountLeft => reply is Count,
        RepairStep::ListMismatched | RepairStep::ListAttached => reply is Ids,
        RepairStep::ListConflicts => reply is Conflicts,
        RepairStep::ListSources => reply is Sources,
        _ => reply is Affected,
    }
}

/// The pages that double another one: those with the same number.
pub open spec fn duplicates_in(conflicts: Seq<Conflict>) -> Seq<i32>
    decreases conflicts.len(),
{
    if conflicts.len() == 0 {
        Seq::empty()
    } else {
        let before = duplicates_in(conflicts.drop_last());
        if conflicts.last().page_cid == conflicts.last().existing_cid {
            before.push(conflicts.last().page_id)
        } else {
            before
        }
    }
}

/// Picks the pages that double another one.
pub fn find_duplicates(conflicts: &Vec<Conflict>) -> (pages: Vec<i32>)
    ensures
        pages@ == duplicates_in(conflicts@),
{
    let mut pages: Vec<i32> = Vec::new();
    let mut k: usize = 0;
    while k < conflicts.len()
        invariant
            k <= conflicts@.len(),
            pages@ == duplicates_in(conflicts@.take(k as int)),
        decreases conflicts@.len() - k,
    {
        proof {
            assert(conflicts@.take(k + 1).drop_last() =~= conflicts@.take(k as int));
        }
        if conflicts[k].page_cid == conflicts[k].existing_cid {
            pages.push(conflicts[k].page_id);
        }
        k += 1;
    }
    assert(conflicts@.take(conflicts@.len() as int) =~= conflicts@);
    pages
}

/// How far a repair got.
#[verifier::ext_equal]
pub struct RepairView {
    pub step: RepairStep,
    /// The videos whose first page had another number.
    pub mismatched: Seq<i64>,
    /// The pages that are still to be removed because they double another one.
    pub duplicates: Seq<i32>,
    /// The videos that are still to be marked as deleted.
    pub condemned: Seq<i64>,
    /// A video was marked as deleted.
    pub marked: bool,
    /// The updates of sources that are still to be made.
    pub updates: Seq<(SourceTable, Seq<i32>)>,
}

/// A repair that has just begun.
pub open spec fn repair_start() -> RepairView {
    RepairView {
        step: RepairStep::CountMismatched,
        mismatched: Seq::empty(),
        duplicates: Seq::empty(),
        condemned: Seq::empty(),
        marked: false,
        updates: Seq::empty(),
    }
}

/// What follows when all pages that could not be attached are gone.
pub open spec fn step_after_orphans(state: RepairView) -> RepairStep {
    if state.mismatched.len() > 0 {
        RepairStep::ListAttached
    } else {
        RepairStep::Commit
    }
}

/// How far a repair got after one more answer.
pub open spec fn repair_next(state: RepairView, reply: RepairReply) -> RepairView {
    match state.step {
        RepairStep::CountMismatched => RepairView {
            step: if reply->Count_0 > 0 {
                RepairStep::ListMismatched
            } else {
                RepairStep::CountLost
            },
            ..state
        },
        RepairStep::ListMismatched => RepairView {
            step: RepairStep::DropMismatched,
            mismatched: reply->Ids_0@,
            ..state
        },
        RepairStep::DropMismatched => RepairView { step: RepairStep::CountLost, ..state },
        RepairStep::CountLost => RepairView {
            step: if reply->Count_0 == 0 {
                RepairStep::CommitUnchanged
            } else {
                RepairStep::SetAside
            },
            ..state
        },
        RepairStep::CommitUnchanged => RepairView { step: RepairStep::Finished, ..state },
        RepairStep::SetAside => RepairView { step: RepairStep::AttachFirst, ..state },
        RepairStep::AttachFirst => RepairView { step: RepairStep::ListConflicts, ..state },
        RepairStep::ListConflicts => {
            let duplicates = duplicates_in(reply->Conflicts_0@);
            RepairView {
                step: if duplicates.len() > 0 {
                    RepairStep::DropDuplicate
                } else {
                    RepairStep::AttachRest
                },
                duplicates,
                ..state
            }
        },
        RepairStep::DropDuplicate => {
            let duplicates = state.duplicates.drop_first();
            RepairView {
                step: if duplicates.len() > 0 {
                    RepairStep::DropDuplicate
                } else {
                    RepairStep::AttachRest
                },
                duplicates,
                ..state
            }
        },
        RepairStep::AttachRest => RepairView { step: RepairStep::CountOrphans, ..state },
        RepairStep::CountOrphans => RepairView {
            step: if reply->Count_0 > 0 {
                RepairStep::DropOrphans
            } else {
                step_after_orphans(state)
            },
            ..state
        },
        RepairStep::DropOrphans => RepairView { step: step_after_orphans(state), ..state },
        RepairStep::ListAttached => {
            let condemned = without(state.mismatched, reply->Ids_0@);
            RepairView {
                step: if condemned.len() > 0 {
                    RepairStep::MarkDeleted
                } else {
                    RepairStep::Commit
                },
                condemned,
                ..state
            }
        },
        RepairStep::MarkDeleted => {
            let condemned = state.condemned.drop_first();
            let marked = state.marked || reply->Affected_0 > 0;
            RepairView {
                step: if condemned.len() > 0 {
                    RepairStep::MarkDeleted
                } else if marked {
                    RepairStep::ListSources
                } else {
                    RepairStep::Commit
                },
                condemned,
                marked,
                ..state
            }
        },
        RepairStep::ListSources => {
            let updates = updates_for(reply->Sources_0@);
            RepairView {
                step: if updates.len() > 0 {
                    RepairStep::EnableScan
                } else {
                    RepairStep::Commit
                },
                updates,
                ..state
            }
        },
        RepairStep::EnableScan => {
            let updates = state.updates.drop_first();
            RepairView {
                step: if updates.len() > 0 {
                    RepairStep::EnableScan
                } else {
                    RepairStep::Commit
                },
                updates,
                ..state
            }
        },
        RepairStep::Commit => RepairView { step: RepairStep::CountLeft, ..state },
        RepairStep::CountLeft => RepairView { step: RepairStep::Finished, ..state },
        RepairStep::Finished => state,
    }
}

/// A repair of the page records. It tells what to ask of the database and takes the answers.
#[derive(Debug)]
pub struct Repair {
    step: RepairStep,
    mismatched: Vec<i64>,
    duplicates: Vec<i32>,
    condemned: Vec<i64>,
    marked: bool,
    updates: Vec<SourceUpdate>,
}

impl View for Repair {
    type V = RepairView;

    closed spec fn view(&self) -> RepairView {
        RepairView {
            step: self.step,
            mismatched: self.mismatched@,
            duplicates: self.duplicates@,
            condemned: self.condemned@,
            marked: self.marked,
            updates: updates_view(self.updates@),
        }
    }
}

/// The lists that a step works off hold something.
pub open spec fn is_supplied(state: RepairView) -> bool {
    &&& state.step == RepairStep::DropDuplicate ==> state.duplicates.len() > 0
    &&& state.step == RepairStep::MarkDeleted ==> state.condemned.len() > 0
    &&& state.step == RepairStep::EnableScan ==> state.updates.len() > 0
}

impl Repair {
    #[verifier::type_invariant]
    spec fn wf(self) -> bool {
        is_supplied(self@)
    }

    /// Begins a repair.
    pub fn new() -> (repair: Self)
        ensures
            repair@ == repair_start(),
            is_supplied(repair@),
    {
        let repair = Repair {
            step: RepairStep::CountMismatched,
            mismatched: Vec::new(),
            duplicates: Vec::new(),
            condemned: Vec::new(),
            marked: false,
            updates: Vec::new(),
        };
        assert(repair@ =~= repair_start());
        repair
    }

    /// What is asked of the database next.
    pub fn step(&self) -> (step: RepairStep)
        ensures
            step == self@.step,
            is_supplied(self@),
    {
        proof {
            use_type_invariant(self);
        }
        self.step
    }

    /// Takes an answer and goes on.
    pub fn advance(self, reply: &RepairReply) -> (repair: Self)
        requires
            answers(self@.step, *reply),
        ensures
            repair@ == repair_next(self@, *reply),
            is_supplied(repair@),
    {
        proof {
            use_type_invariant(&self);
        }
        let ghost before = self@;
        let Repair { step, mismatched, duplicates, condemned, marked, updates } = self;
        let mut step: RepairStep = step;
        let mut mismatched = mismatched;
        let mut duplicates = duplicates;
        let mut condemned = condemned;
        let mut marked: bool = marked;
        let mut updates = updates;
        let after_orphans: RepairStep = if mismatched.len() > 0 {
            RepairStep::ListAttached
        } else {
            RepairStep::Commit
        };
        match (step, reply) {
            (RepairStep::CountMismatched, RepairReply::Count(count)) => {
                step = if *count > 0 {
                    RepairStep::ListMismatched
                } else {
                    RepairStep::CountLost
                };
            },
            (RepairStep::ListMismatched, RepairReply::Ids(ids)) => {
                step = RepairStep::DropMismatched;
                mismatched = copied(ids);
            },
            (RepairStep::DropMismatched, _) => {
                step = RepairStep::CountLost;
            },
            (RepairStep::CountLost, RepairReply::Count(count)) => {
                step = if *count == 0 {
                    RepairStep::CommitUnchanged
                } else {
                    RepairStep::SetAside
                };
            },
            (RepairStep::CommitUnchanged, _) => {
                step = RepairStep::Finished;
            },
            (RepairStep::SetAside, _) => {
                step = RepairStep::AttachFirst;
            },
            (RepairStep::AttachFirst, _) => {
                step = RepairStep::ListConflicts;
            },
            (RepairStep::ListConflicts, RepairReply::Conflicts(conflicts)) => {
                duplicates = find_duplicates(conflicts);
                step = if duplicates.len() > 0 {
                    RepairStep::DropDuplicate
                } else {
                    RepairStep::AttachRest
                };
            },
            (RepairStep::DropDuplicate, _) => {
                let _ = duplicates.remove(0);
                assert(duplicates@ =~= before.duplicates.drop_first());
                step = if duplicates.len() > 0 {
                    RepairStep::DropDuplicate
                } else {
                    RepairStep::AttachRest
                };
            },
            (RepairStep::AttachRest, _) => {
                step = RepairStep::CountOrphans;
            },
            (RepairStep::CountOrphans, RepairReply::Count(count)) => {
                step = if *count > 0 {
                    RepairStep::DropOrphans
                } else {
                    after_orphans
                };
            },
            (RepairStep::DropOrphans, _) => {
                step = after_orphans;
            },
            (RepairStep::ListAttached, RepairReply::Ids(ids)) => {
                condemned = numbers_without(&mismatched, ids);
                step = if condemned.len() > 0 {
                    RepairStep::MarkDeleted
                } else {
                    RepairStep::Commit
                };
            },
            (RepairStep::MarkDeleted, RepairReply::Affected(rows)) => {
                let _ = condemned.remove(0);
                assert(condemned@ =~= before.condemned.drop_first());
                marked = marked || *rows > 0;
                step = if condemned.len() > 0 {
                    RepairStep::MarkDeleted
                } else if marked {
                    RepairStep::ListSources
                } else {
                    RepairStep::Commit
                };
            },
            (RepairStep::ListSources, RepairReply::Sources(rows)) => {
                updates = source_updates(rows);
                step = if updates.len() > 0 {
                    RepairStep::EnableScan
                } else {
                    RepairStep::Commit
                };
            },
            (RepairStep::EnableScan, _) => {
                let _ = updates.remove(0);
                assert(updates_view(updates@) =~= before.updates.drop_first());
                step = if updates.len() > 0 {
                    RepairStep::EnableScan
                } else {
                    RepairStep::Commit
                };
            },
            (RepairStep::Commit, _) => {
                step = RepairStep::CountLeft;
            },
            (RepairStep::CountLeft, _) => {
                step = RepairStep::Finished;
            },
            _ => {},
        }
        let repair = Repair { step, mismatched, duplicates, condemned, marked, updates };
        assert(repair@ =~= repair_next(before, *reply));
        repair
    }
}

fn copied(numbers: &Vec<i64>) -> (copy: Vec<i64>)
    ensures
        copy@ == numbers@,
{
    let mut copy: Vec<i64> = Vec::new();
    let mut k: usize = 0;
    while k < numbers.len()
        invariant
            k <= numbers@.len(),
            copy@ == numbers@.take(k as int),
        decreases numbers@.len() - k,
    {
        copy.push(numbers[k]);
        assert(numbers@.take(k + 1) =~= numbers@.take(k as int).push(numbers@[k as int]));
        k += 1;
    }
    assert(numbers@.take(numbers@.len() as int) =~= numbers@);
    copy
}

/// What a step asks of the database, unless it depends on how far the repair got.
pub open spec fn fixed_statement(step: RepairStep) -> Seq<char> {
    match step {
        RepairStep::CountMismatched => "SELECT COUNT(*) as count FROM page p JOIN video v ON p.video_id = v.id WHERE p.pid = 1 AND v.cid IS NOT NULL AND p.cid != v.cid"@,
        RepairStep::ListMismatched => "SELECT DISTINCT p.video_id FROM page p JOIN video v ON p.video_id = v.id WHERE p.pid = 1 AND v.cid IS NOT NULL AND p.cid != v.cid"@,
        RepairStep::DropMismatched => "DELETE FROM page WHERE id IN (SELECT p.id FROM page p JOIN video v ON p.video_id = v.id WHERE p.pid = 1 AND v.cid IS NOT NULL AND p.cid != v.cid)"@,
        RepairStep::CountLost => "SELECT COUNT(*) as count FROM page p LEFT JOIN video v ON p.video_id = v.id WHERE v.id IS NULL"@,
        RepairStep::SetAside => "UPDATE page SET video_id = -id WHERE video_id NOT IN (SELECT id FROM video)"@,
        RepairStep::AttachFirst => "UPDATE page SET video_id = (SELECT v.id FROM video v WHERE v.cid = page.cid LIMIT 1) WHERE video_id < 0 AND pid = 1 AND EXISTS (SELECT 1 FROM video v WHERE v.cid = page.cid) AND NOT EXISTS (SELECT 1 FROM page p2 WHERE p2.video_id = (SELECT v.id FROM video v WHERE v.cid = page.cid LIMIT 1) AND p2.pid = 1)"@,
        RepairStep::ListConflicts => "SELECT p1.id, p1.cid, v.id as correct_video_id, p2.id as existing_id, p2.cid as existing_cid FROM page p1 JOIN video v ON p1.cid = v.cid LEFT JOIN page p2 ON v.id = p2.video_id AND p2.pid = 1 WHERE p1.video_id < 0 AND p1.pid = 1 AND p2.id IS NOT NULL"@,
        RepairStep::DropDuplicate => "DELETE FROM page WHERE id = ?"@,
        RepairStep::AttachRest => "UPDATE page SET video_id = (SELECT v.id FROM page p1 JOIN video v ON v.cid = p1.cid WHERE p1.pid = 1 AND RTRIM(p1.path, REPLACE(p1.path, '/', '')) = RTRIM(page.path, REPLACE(page.path, '/', '')) LIMIT 1) WHERE video_id < 0 AND pid > 1 AND EXISTS (SELECT 1 FROM page p1 JOIN video v ON v.cid = p1.cid WHERE p1.pid = 1 AND RTRIM(p1.path, REPLACE(p1.path, '/', '')) = RTRIM(page.path, REPLACE(page.path, '/', '')))"@,
        RepairStep::CountOrphans => "SELECT COUNT(*) as count FROM page WHERE video_id < 0"@,
        RepairStep::DropOrphans => "DELETE FROM page WHERE video_id < 0"@,
        RepairStep::ListAttached => "SELECT DISTINCT video_id FROM page WHERE video_id > 0"@,
        RepairStep::MarkDeleted => "UPDATE video SET deleted = 1 WHERE id = ?"@,
        RepairStep::ListSources => "SELECT DISTINCT submission_id, collection_id, favorite_id, watch_later_id, source_id, source_type FROM video WHERE deleted = 1 AND id IN (SELECT value FROM json_each(?))"@,
        RepairStep::CountLeft => "SELECT COUNT(*) as count FROM page p LEFT JOIN video v ON p.video_id = v.id WHERE v.id IS NULL"@,
        _ => ""@,
    }
}

/// What a step asks of the database, unless it depends on how far the repair got.
fn fixed_statement_text(step: RepairStep) -> (sql: &'static str)
    ensures
        sql@ == fixed_statement(step),
{
    match step {
        RepairStep::CountMismatched => "SELECT COUNT(*) as count FROM page p JOIN video v ON p.video_id = v.id WHERE p.pid = 1 AND v.cid IS NOT NULL AND p.cid != v.cid",
        RepairStep::ListMismatched => "SELECT DISTINCT p.video_id FROM page p JOIN video v ON p.video_id = v.id WHERE p.pid = 1 AND v.cid IS NOT NULL AND p.cid != v.cid",
        RepairStep::DropMismatched => "DELETE FROM page WHERE id IN (SELECT p.id FROM page p JOIN video v ON p.video_id = v.id WHERE p.pid = 1 AND v.cid IS NOT NULL AND p.cid != v.cid)",
        RepairStep::CountLost => "SELECT COUNT(*) as count FROM page p LEFT JOIN video v ON p.video_id = v.id WHERE v.id IS NULL",
        RepairStep::SetAside => "UPDATE page SET video_id = -id WHERE video_id NOT IN (SELECT id FROM video)",
        RepairStep::AttachFirst => "UPDATE page SET video_id = (SELECT v.id FROM video v WHERE v.cid = page.cid LIMIT 1) WHERE video_id < 0 AND pid = 1 AND EXISTS (SELECT 1 FROM video v WHERE v.cid = page.cid) AND NOT EXISTS (SELECT 1 FROM page p2 WHERE p2.video_id = (SELECT v.id FROM video v WHERE v.cid = page.cid LIMIT 1) AND p2.pid = 1)",
        RepairStep::ListConflicts => "SELECT p1.id, p1.cid, v.id as correct_video_id, p2.id as existing_id, p2.cid as existing_cid FROM page p1 JOIN video v ON p1.cid = v.cid LEFT JOIN page p2 ON v.id = p2.video_id AND p2.pid = 1 WHERE p1.video_id < 0 AND p1.pid = 1 AND p2.id IS NOT NULL",
        RepairStep::DropDuplicate => "DELETE FROM page WHERE id = ?",
        RepairStep::AttachRest => "UPDATE page SET video_id = (SELECT v.id FROM page p1 JOIN video v ON v.cid = p1.cid WHERE p1.pid = 1 AND RTRIM(p1.path, REPLACE(p1.path, '/', '')) = RTRIM(page.path, REPLACE(page.path, '/', '')) LIMIT 1) WHERE video_id < 0 AND pid > 1 AND EXISTS (SELECT 1 FROM page p1 JOIN video v ON v.cid = p1.cid WHERE p1.pid = 1 AND RTRIM(p1.path, REPLACE(p1.path, '/', '')) = RTRIM(page.path, REPLACE(page.path, '/', '')))",
        RepairStep::CountOrphans => "SELECT COUNT(*) as count FROM page WHERE video_id < 0",
        RepairStep::DropOrphans => "DELETE FROM page WHERE video_id < 0",
        RepairStep::ListAttached => "SELECT DISTINCT video_id FROM page WHERE video_id > 0",
        RepairStep::MarkDeleted => "UPDATE video SET deleted = 1 WHERE id = ?",
        RepairStep::ListSources => "SELECT DISTINCT submission_id, collection_id, favorite_id, watch_later_id, source_id, source_type FROM video WHERE deleted = 1 AND id IN (SELECT value FROM json_each(?))",
        RepairStep::CountLeft => "SELECT COUNT(*) as count FROM page p LEFT JOIN video v ON p.video_id = v.id WHERE v.id IS NULL",
        _ => "",
    }
}

/// The statement that has the deleted videos of `count` sources looked for.
pub open spec fn enable_statement(table: SourceTable, count: nat) -> Seq<char> {
    "UPDATE "@ + table_text(table) + " SET scan_deleted_videos = 1 WHERE id IN ("@
        + placeholder_list(count) + ") AND scan_deleted_videos = 0"@
}

/// The step asks something of the database; the others end the work on it.
pub open spec fn has_statement(step: RepairStep) -> bool {
    step != RepairStep::CommitUnchanged && step != RepairStep::Commit && step
        != RepairStep::Finished
}

/// What is asked of the database.
pub open spec fn statement_of(state: RepairView) -> Seq<char> {
    if state.step == RepairStep::EnableScan {
        enable_statement(state.updates[0].0, state.updates[0].1.len())
    } else {
        fixed_statement(state.step)
    }
}

/// The values that go with what is asked of the database.
pub open spec fn values_of(state: RepairView) -> Seq<ValueView> {
    match state.step {
        RepairStep::DropDuplicate => seq![ValueView::Integer(state.duplicates[0] as int)],
        RepairStep::MarkDeleted => seq![ValueView::Integer(state.condemned[0] as int)],
        RepairStep::ListSources => seq![ValueView::Text(json_numbers(state.mismatched))],
        RepairStep::EnableScan => state.updates[0].1.map_values(
            |id: i32| ValueView::Integer(id as int),
        ),
        _ => Seq::empty(),
    }
}

impl Repair {
    /// The statement of the present step, if it has one.
    pub fn statement(&self) -> (statement: Option<SqlStatement>)
        ensures
            statement is Some <==> has_statement(self@.step),
            statement matches Some(asked) ==> asked.sql@ == statement_of(self@) && values_view(
                asked.values@,
            ) == values_of(self@),
    {
        proof {
            use_type_invariant(self);
        }
        let mut values: Vec<SqlValue> = Vec::new();
        let mut sql = fixed_statement_text(self.step).to_owned();
        match self.step {
            RepairStep::CommitUnchanged | RepairStep::Commit | RepairStep::Finished => {
                return None;
            },
            RepairStep::DropDuplicate => {
                values.push(SqlValue::Integer(self.duplicates[0] as i64));
            },
            RepairStep::MarkDeleted => {
                values.push(SqlValue::Integer(self.condemned[0]));
            },
            RepairStep::ListSources => {
                if let Some(json) = numbers_to_json(&self.mismatched) {
                    values.push(SqlValue::Text(json));
                }
            },
            RepairStep::EnableScan => {
                let update = &self.updates[0];
                assert(self@.updates[0] == update@);
                sql = "UPDATE ".to_owned();
                sql.append(table_name(update.table));
                sql.append(" SET scan_deleted_videos = 1 WHERE id IN (");
                sql.append(placeholders(update.ids.len()).as_str());
                sql.append(") AND scan_deleted_videos = 0");
                let mut k: usize = 0;
                while k < update.ids.len()
                    invariant
                        k <= update.ids@.len(),
                        values@.len() == k,
                        forall|i: int|
                            0 <= i < k ==> (#[trigger] values@[i])@ == ValueView::Integer(
                                update.ids@[i] as int,
                            ),
                    decreases update.ids@.len() - k,
                {
                    values.push(SqlValue::Integer(update.ids[k] as i64));
                    k += 1;
                }
            },
            _ => {},
        }
        assert(values_view(values@) =~= values_of(self@));
        Some(SqlStatement { sql, values })
    }
}

/// How far a repair got after all these answers.
pub open spec fn repair_after(replies: Seq<RepairReply>) -> RepairView
    decreases replies.len(),
{
    if replies.len() == 0 {
        repair_start()
    } else {
        repair_next(repair_after(replies.drop_last()), replies.last())
    }
}

/// The place of a step in the order of the steps.
pub open spec fn rank(step: RepairStep) -> int {
    match step {
        RepairStep::CountMismatched => 0,
        RepairStep::ListMismatched => 1,
        RepairStep::DropMismatched => 2,
        RepairStep::CountLost => 3,
        RepairStep::SetAside => 4,
        RepairStep::AttachFirst => 5,
        RepairStep::ListConflicts => 6,
        RepairStep::DropDuplicate => 7,
        RepairStep::AttachRest => 8,
        RepairStep::CountOrphans => 9,
        RepairStep::DropOrphans => 10,
        RepairStep::ListAttached => 11,
        RepairStep::MarkDeleted => 12,
        RepairStep::ListSources => 13,
        RepairStep::EnableScan => 14,
        RepairStep::Commit => 15,
        RepairStep::CommitUnchanged => 16,
        RepairStep::CountLeft => 17,
        RepairStep::Finished => 18,
    }
}

/// What a step that is repeated still has to work off.
pub open spec fn work_left(state: RepairView) -> nat {
    match state.step {
        RepairStep::DropDuplicate => state.duplicates.len(),
        RepairStep::MarkDeleted => state.condemned.len(),
        RepairStep::EnableScan => state.updates.len(),
        _ => 0,
    }
}

/// Every answer brings the repair on: to a later step, or to the same step with less to work off.
/// So every repair ends.
pub proof fn every_answer_brings_on(state: RepairView, reply: RepairReply)
    requires
        is_supplied(state),
        state.step != RepairStep::Finished,
    ensures
        is_supplied(repair_next(state, reply)),
        rank(repair_next(state, reply).step) > rank(state.step) || (repair_next(state, reply).step
            == state.step && work_left(repair_next(state, reply)) < work_left(state)),
{
}

/// The steps are taken in order.
pub proof fn steps_are_in_order(replies: Seq<RepairReply>, first: int, later: int)
    requires
        0 <= first <= later <= replies.len(),
    ensures
        is_supplied(repair_after(replies.take(first))),
        rank(repair_after(replies.take(first)).step) <= rank(
            repair_after(replies.take(later)).step,
        ),
    decreases later,
{
    if first < later {
        steps_are_in_order(replies, first, later - 1);
        steps_are_in_order(replies, later - 1, later - 1);
        assert(replies.take(later).drop_last() =~= replies.take(later - 1));
        let before = repair_after(replies.take(later - 1));
        if before.step != RepairStep::Finished {
            every_answer_brings_on(before, replies.take(later).last());
        }
    } else if first > 0 {
        steps_are_in_order(replies, first - 1, first - 1);
        assert(replies.take(first).drop_last() =~= replies.take(first - 1));
        let before = repair_after(replies.take(first - 1));
        if before.step != RepairStep::Finished {
            every_answer_brings_on(before, replies.take(first).last());
        }
    }
}

/// The work on the database is ended by this step.
pub open spec fn is_commit(step: RepairStep) -> bool {
    step == RepairStep::Commit || step == RepairStep::CommitUnchanged
}

/// The work on the database is ended once: whatever follows changes nothing any more.
pub proof fn commit_is_last(replies: Seq<RepairReply>, first: int, later: int)
    requires
        0 <= first < later <= replies.len(),
        is_commit(repair_after(replies.take(first)).step),
    ensures
        ({
            let step = repair_after(replies.take(later)).step;
            step == RepairStep::CountLeft || step == RepairStep::Finished
        }),
    decreases later,
{
    assert(replies.take(later).drop_last() =~= replies.take(later - 1));
    if first + 1 < later {
        commit_is_last(replies, first, later - 1);
    }
}

/// A repair that ends has ended the work on the database before.
pub proof fn finish_follows_commit(replies: Seq<RepairReply>)
    requires
        ({
            let step = repair_after(replies).step;
            step == RepairStep::CountLeft || step == RepairStep::Finished
        }),
    ensures
        exists|at: int|
            0 <= at < replies.len() && is_commit((#[trigger] repair_after(replies.take(at))).step),
    decreases replies.len(),
{
    if replies.len() > 0 {
        let head = replies.drop_last();
        let end = replies.len() - 1;
        assert(head =~= replies.take(end));
        if !is_commit(repair_after(head).step) {
            finish_follows_commit(head);
            let at = choose|at: int|
                0 <= at < head.len() && is_commit((#[trigger] repair_after(head.take(at))).step);
            assert(head.take(at) =~= replies.take(at));
        }
    }
}

/// A repair marks a video as deleted only if its first page had another number than the video, and
/// no page is attached to it now: neither those that were so from the start nor those that the
/// repair attached.
pub proof fn only_bare_videos_are_deleted(
    state: RepairView,
    attached: RepairReply,
    video: i64,
)
    requires
        state.step == RepairStep::ListAttached,
        attached is Ids,
    ensures
        is_listed(repair_next(state, attached).condemned, video) <==> is_listed(
            state.mismatched,
            video,
        ) && !is_listed(attached->Ids_0@, video),
{
    without_excludes(state.mismatched, attached->Ids_0@, video);
}

/// A page is removed as a duplicate only if its number is that of the page that is there.
pub proof fn duplicates_are_real(conflicts: Seq<Conflict>, page: i32)
    ensures
        duplicates_in(conflicts).contains(page) <==> exists|i: int|
            0 <= i < conflicts.len() && (#[trigger] conflicts[i]).page_id == page
                && conflicts[i].page_cid == conflicts[i].existing_cid,
    decreases conflicts.len(),
{
    if conflicts.len() > 0 {
        let head = conflicts.drop_last();
        let last = conflicts.last();
        let before = duplicates_in(head);
        let after = duplicates_in(conflicts);
        duplicates_are_real(head, page);
        if before.contains(page) {
            let j = choose|j: int| 0 <= j < before.len() && before[j] == page;
            assert(after[j] == page);
            let i = choose|i: int|
                0 <= i < head.len() && (#[trigger] head[i]).page_id == page && head[i].page_cid
                    == head[i].existing_cid;
            assert(conflicts[i] == head[i]);
        }
        if last.page_cid == last.existing_cid && last.page_id == page {
            assert(after[before.len() as int] == page);
            assert(conflicts[conflicts.len() - 1] == last);
        }
        if exists|i: int|
            0 <= i < conflicts.len() && (#[trigger] conflicts[i]).page_id == page
                && conflicts[i].page_cid == conflicts[i].existing_cid {
            let i = choose|i: int|
                0 <= i < conflicts.len() && (#[trigger] conflicts[i]).page_id == page
                    && conflicts[i].page_cid == conflicts[i].existing_cid;
            if i < head.len() {
                assert(head[i] == conflicts[i]);
            }
        }
    }
}

/// The deleted videos of a source are looked for in the table that the source is kept in: the
/// statement names it, and sets the mark of exactly as many sources as it has placeholders, unless it
/// is set.
pub proof fn scans_are_enabled_in_the_right_table(count: nat)
    ensures
        ({
            let rest = " SET scan_deleted_videos = 1 WHERE id IN ("@ + placeholder_list(count)
                + ") AND scan_deleted_videos = 0"@;
            &&& enable_statement(SourceTable::Submission, count) == "UPDATE submission"@ + rest
            &&& enable_statement(SourceTable::Collection, count) == "UPDATE collection"@ + rest
            &&& enable_statement(SourceTable::Favorite, count) == "UPDATE favorite"@ + rest
            &&& enable_statement(SourceTable::WatchLater, count) == "UPDATE watch_later"@ + rest
            &&& enable_statement(SourceTable::VideoSource, count) == "UPDATE video_source"@ + rest
        }),
{
    reveal_strlit("UPDATE ");
    reveal_strlit("submission");
    reveal_strlit("collection");
    reveal_strlit("favorite");
    reveal_strlit("watch_later");
    reveal_strlit("video_source");
    reveal_strlit("UPDATE submission");
    reveal_strlit("UPDATE collection");
    reveal_strlit("UPDATE favorite");
    reveal_strlit("UPDATE watch_later");
    reveal_strlit("UPDATE video_source");
    assert("UPDATE "@ + "submission"@ =~= "UPDATE submission"@);
    assert("UPDATE "@ + "collection"@ =~= "UPDATE collection"@);
    assert("UPDATE "@ + "favorite"@ =~= "UPDATE favorite"@);
    assert("UPDATE "@ + "watch_later"@ =~= "UPDATE watch_later"@);
    assert("UPDATE "@ + "video_source"@ =~= "UPDATE video_source"@);
    scans_are_enabled_by_name(SourceTable::Submission, "UPDATE submission"@, count);
    scans_are_enabled_by_name(SourceTable::Collection, "UPDATE collection"@, count);
    scans_are_enabled_by_name(SourceTable::Favorite, "UPDATE favorite"@, count);
    scans_are_enabled_by_name(SourceTable::WatchLater, "UPDATE watch_later"@, count);
    scans_are_enabled_by_name(SourceTable::VideoSource, "UPDATE video_source"@, count);
}

proof fn scans_are_enabled_by_name(table: SourceTable, front: Seq<char>, count: nat)
    requires
        front == "UPDATE "@ + table_text(table),
    ensures
        enable_statement(table, count) == front + (" SET scan_deleted_videos = 1 WHERE id IN ("@
            + placeholder_list(count) + ") AND scan_deleted_videos = 0"@),
{
    assert(enable_statement(table, count) =~= front + (" SET scan_deleted_videos = 1 WHERE id IN ("@
        + placeholder_list(count) + ") AND scan_deleted_videos = 0"@));
}

/// First pages with another number than their video are counted, listed and removed by the same
/// condition, so that what is removed is what was counted.
pub proof fn mismatched_pages_are_told_alike()
    ensures
        ({
            let which = "page p JOIN video v ON p.video_id = v.id WHERE p.pid = 1 AND v.cid IS NOT NULL AND p.cid != v.cid"@;
            &&& fixed_statement(RepairStep::CountMismatched) == "SELECT COUNT(*) as count FROM "@
                + which
            &&& fixed_statement(RepairStep::ListMismatched) == "SELECT DISTINCT p.video_id FROM "@
                + which
            &&& fixed_statement(RepairStep::DropMismatched)
                == "DELETE FROM page WHERE id IN (SELECT p.id FROM "@ + which + ")"@
        }),
{
    reveal_strlit(
        "page p JOIN video v ON p.video_id = v.id WHERE p.pid = 1 AND v.cid IS NOT NULL AND p.cid != v.cid",
    );
    reveal_strlit("SELECT COUNT(*) as count FROM ");
    reveal_strlit("SELECT DISTINCT p.video_id FROM ");
    reveal_strlit("DELETE FROM page WHERE id IN (SELECT p.id FROM ");
    reveal_strlit(")");
    reveal_strlit(
        "SELECT COUNT(*) as count FROM page p JOIN video v ON p.video_id = v.id WHERE p.pid = 1 AND v.cid IS NOT NULL AND p.cid != v.cid",
    );
    reveal_strlit(
        "SELECT DISTINCT p.video_id FROM page p JOIN video v ON p.video_id = v.id WHERE p.pid = 1 AND v.cid IS NOT NULL AND p.cid != v.cid",
    );
    reveal_strlit(
        "DELETE FROM page WHERE id IN (SELECT p.id FROM page p JOIN video v ON p.video_id = v.id WHERE p.pid = 1 AND v.cid IS NOT NULL AND p.cid != v.cid)",
    );
    let which = "page p JOIN video v ON p.video_id = v.id WHERE p.pid = 1 AND v.cid IS NOT NULL AND p.cid != v.cid"@;
    assert(fixed_statement(RepairStep::CountMismatched) =~= "SELECT COUNT(*) as count FROM "@
        + which);
    assert(fixed_statement(RepairStep::ListMismatched) =~= "SELECT DISTINCT p.video_id FROM "@
        + which);
    assert(fixed_statement(RepairStep::DropMismatched)
        =~= "DELETE FROM page WHERE id IN (SELECT p.id FROM "@ + which + ")"@);
}

/// Pages that could not be attached are counted and removed by the same condition, and the pages that
/// are left without a video are counted at the end as at the beginning.
pub proof fn lost_pages_are_told_alike()
    ensures
        fixed_statement(RepairStep::CountLeft) == fixed_statement(RepairStep::CountLost),
        fixed_statement(RepairStep::CountOrphans) == "SELECT COUNT(*) as count FROM page"@
            + " WHERE video_id < 0"@,
        fixed_statement(RepairStep::DropOrphans) == "DELETE FROM page"@ + " WHERE video_id < 0"@,
{
    reveal_strlit("SELECT COUNT(*) as count FROM page WHERE video_id < 0");
    reveal_strlit("DELETE FROM page WHERE video_id < 0");
    reveal_strlit("SELECT COUNT(*) as count FROM page");
    reveal_strlit("DELETE FROM page");
    reveal_strlit(" WHERE video_id < 0");
    assert(fixed_statement(RepairStep::CountOrphans) =~= "SELECT COUNT(*) as count FROM page"@
        + " WHERE video_id < 0"@);
    assert(fixed_statement(RepairStep::DropOrphans) =~= "DELETE FROM page"@
        + " WHERE video_id < 0"@);
}

/// A page that is not the first one, whichever it is, is attached to the video of the first page in
/// its folder exactly where there is one: what is set and what is asked for are the same.
pub proof fn rest_pages_follow_the_first()
    ensures
        ({
            let which = " FROM page p1 JOIN video v ON v.cid = p1.cid WHERE p1.pid = 1 AND RTRIM(p1.path, REPLACE(p1.path, '/', '')) = RTRIM(page.path, REPLACE(page.path, '/', ''))"@;
            fixed_statement(RepairStep::AttachRest)
                == "UPDATE page SET video_id = (SELECT v.id"@ + which
                + " LIMIT 1) WHERE video_id < 0 AND pid > 1 AND EXISTS (SELECT 1"@ + which + ")"@
        }),
{
    reveal_strlit(
        " FROM page p1 JOIN video v ON v.cid = p1.cid WHERE p1.pid = 1 AND RTRIM(p1.path, REPLACE(p1.path, '/', '')) = RTRIM(page.path, REPLACE(page.path, '/', ''))",
    );
    reveal_strlit("UPDATE page SET video_id = (SELECT v.id");
    reveal_strlit(" LIMIT 1) WHERE video_id < 0 AND pid > 1 AND EXISTS (SELECT 1");
    reveal_strlit(")");
    reveal_strlit(
        "UPDATE page SET video_id = (SELECT v.id FROM page p1 JOIN video v ON v.cid = p1.cid WHERE p1.pid = 1 AND RTRIM(p1.path, REPLACE(p1.path, '/', '')) = RTRIM(page.path, REPLACE(page.path, '/', '')) LIMIT 1) WHERE video_id < 0 AND pid > 1 AND EXISTS (SELECT 1 FROM page p1 JOIN video v ON v.cid = p1.cid WHERE p1.pid = 1 AND RTRIM(p1.path, REPLACE(p1.path, '/', '')) = RTRIM(page.path, REPLACE(page.path, '/', '')))",
    );
    let which = " FROM page p1 JOIN video v ON v.cid = p1.cid WHERE p1.pid = 1 AND RTRIM(p1.path, REPLACE(p1.path, '/', '')) = RTRIM(page.path, REPLACE(page.path, '/', ''))"@;
    assert(fixed_statement(RepairStep::AttachRest)
        =~= "UPDATE page SET video_id = (SELECT v.id"@ + which
        + " LIMIT 1) WHERE video_id < 0 AND pid > 1 AND EXISTS (SELECT 1"@ + which + ")"@);
}

/// A first page is attached to the very video that is found to have none: what is set and what is
/// asked for are the same.
pub proof fn first_pages_fill_gaps()
    ensures
        ({
            let found = "(SELECT v.id FROM video v WHERE v.cid = page.cid LIMIT 1)"@;
            fixed_statement(RepairStep::AttachFirst) == "UPDATE page SET video_id = "@ + found
                + " WHERE video_id < 0 AND pid = 1 AND EXISTS (SELECT 1 FROM video v WHERE v.cid = page.cid) AND NOT EXISTS (SELECT 1 FROM page p2 WHERE p2.video_id = "@
                + found + " AND p2.pid = 1)"@
        }),
{
    reveal_strlit("(SELECT v.id FROM video v WHERE v.cid = page.cid LIMIT 1)");
    reveal_strlit("UPDATE page SET video_id = ");
    reveal_strlit(
        " WHERE video_id < 0 AND pid = 1 AND EXISTS (SELECT 1 FROM video v WHERE v.cid = page.cid) AND NOT EXISTS (SELECT 1 FROM page p2 WHERE p2.video_id = ",
    );
    reveal_strlit(" AND p2.pid = 1)");
    reveal_strlit(
        "UPDATE page SET video_id = (SELECT v.id FROM video v WHERE v.cid = page.cid LIMIT 1) WHERE video_id < 0 AND pid = 1 AND EXISTS (SELECT 1 FROM video v WHERE v.cid = page.cid) AND NOT EXISTS (SELECT 1 FROM page p2 WHERE p2.video_id = (SELECT v.id FROM video v WHERE v.cid = page.cid LIMIT 1) AND p2.pid = 1)",
    );
    let found = "(SELECT v.id FROM video v WHERE v.cid = page.cid LIMIT 1)"@;
    assert(fixed_statement(RepairStep::AttachFirst) =~= "UPDATE page SET video_id = "@ + found
        + " WHERE video_id < 0 AND pid = 1 AND EXISTS (SELECT 1 FROM video v WHERE v.cid = page.cid) AND NOT EXISTS (SELECT 1 FROM page p2 WHERE p2.video_id = "@
        + found + " AND p2.pid = 1)"@);
}

/// A statement gets the values of what it works on: the page that is removed, the video that is
/// marked, all videos whose sources are asked for, and the sources that are updated, each in its
/// place. No other statement gets any.
pub proof fn statements_get_their_values(state: RepairView, at: int)
    requires
        is_supplied(state),
    ensures
        state.step == RepairStep::DropDuplicate ==> values_of(state).len() == 1 && values_of(
            state,
        )[0] == ValueView::Integer(state.duplicates[0] as int),
        state.step == RepairStep::MarkDeleted ==> values_of(state).len() == 1 && values_of(state)[0]
            == ValueView::Integer(state.condemned[0] as int),
        state.step == RepairStep::ListSources ==> values_of(state).len() == 1 && values_of(state)[0]
            == ValueView::Text(json_numbers(state.mismatched)),
        state.step == RepairStep::EnableScan ==> values_of(state).len()
            == state.updates[0].1.len() && (0 <= at < values_of(state).len() ==> values_of(
            state,
        )[at] == ValueView::Integer(state.updates[0].1[at] as int)),
        state.step != RepairStep::DropDuplicate && state.step != RepairStep::MarkDeleted
            && state.step != RepairStep::ListSources && state.step != RepairStep::EnableScan
            ==> values_of(state).len() == 0,
{
}

/// Work is taken up exactly where a count says that there is some: mismatched pages are listed where
/// there are any, lost pages are set aside where there are any and the repair ends unchanged where
/// there are none, and orphans are removed where there are any.
pub proof fn counts_decide(state: RepairView, count: i64)
    ensures
        state.step == RepairStep::CountMismatched ==> repair_next(
            state,
            RepairReply::Count(count),
        ).step == if count > 0 {
            RepairStep::ListMismatched
        } else {
            RepairStep::CountLost
        },
        state.step == RepairStep::CountLost ==> repair_next(state, RepairReply::Count(count)).step
            == if count == 0 {
            RepairStep::CommitUnchanged
        } else {
            RepairStep::SetAside
        },
        state.step == RepairStep::CountOrphans && count > 0 ==> repair_next(
            state,
            RepairReply::Count(count),
        ).step == RepairStep::DropOrphans,
        state.step == RepairStep::CountOrphans && count <= 0 ==> repair_next(
            state,
            RepairReply::Count(count),
        ).step == if state.mismatched.len() > 0 {
            RepairStep::ListAttached
        } else {
            RepairStep::Commit
        },
{
}

/// The sources of the videos that were marked are asked for exactly if one was: marking that reached
/// no row leaves the sources alone, and one that reached a row is not forgotten.
pub proof fn marks_are_remembered(state: RepairView, rows: u64)
    requires
        state.step == RepairStep::MarkDeleted,
        state.condemned.len() > 0,
    ensures
        ({
            let next = repair_next(state, RepairReply::Affected(rows));
            &&& next.marked <==> state.marked || rows > 0
            &&& next.condemned == state.condemned.drop_first()
            &&& state.condemned.len() > 1 ==> next.step == RepairStep::MarkDeleted
            &&& state.condemned.len() == 1 ==> next.step == if state.marked || rows > 0 {
                RepairStep::ListSources
            } else {
                RepairStep::Commit
            }
        }),
{
}

/// What is to be worked off is worked off to the last: every duplicate is removed, and every update of
/// sources is made, before the repair goes on.
pub proof fn lists_are_worked_off(state: RepairView, rows: u64)
    ensures
        state.step == RepairStep::DropDuplicate && state.duplicates.len() > 0 ==> {
            let next = repair_next(state, RepairReply::Affected(rows));
            &&& next.duplicates == state.duplicates.drop_first()
            &&& next.step == if state.duplicates.len() > 1 {
                RepairStep::DropDuplicate
            } else {
                RepairStep::AttachRest
            }
        },
        state.step == RepairStep::EnableScan && state.updates.len() > 0 ==> {
            let next = repair_next(state, RepairReply::Affected(rows));
            &&& next.updates == state.updates.drop_first()
            &&& next.step == if state.updates.len() > 1 {
                RepairStep::EnableScan
            } else {
                RepairStep::Commit
            }
        },
{
}

/// Every step but those that end the work asks something of the database. What it asks is the same
/// for every repair, but for the update of sources, which is that of the first table on the list with a
/// place for each source on it.
pub proof fn every_step_asks_its_question(state: RepairView)
    ensures
        has_statement(state.step) <==> !(state.step == RepairStep::CommitUnchanged || state.step
            == RepairStep::Commit || state.step == RepairStep::Finished),
        state.step == RepairStep::EnableScan ==> statement_of(state) == enable_statement(
            state.updates[0].0,
            state.updates[0].1.len(),
        ),
        state.step != RepairStep::EnableScan ==> statement_of(state) == fixed_statement(state.step),
{
}

/// Duplicates are looked for only among first pages that were set aside, and only against first pages
/// of the video with the same number; pages are set aside only where no video has their number, and are
/// lost for the same reason.
pub proof fn statements_name_what_they_touch()
    ensures
        fixed_statement(RepairStep::ListConflicts)
            == "SELECT p1.id, p1.cid, v.id as correct_video_id, p2.id as existing_id, p2.cid as existing_cid"@
            + " FROM page p1 JOIN video v ON p1.cid = v.cid LEFT JOIN page p2 ON v.id = p2.video_id AND p2.pid = 1"@
            + " WHERE p1.video_id < 0 AND p1.pid = 1 AND p2.id IS NOT NULL"@,
        fixed_statement(RepairStep::CountLost) == "SELECT COUNT(*) as count FROM page p"@
            + " LEFT JOIN video v ON p.video_id = v.id WHERE v.id IS NULL"@,
        fixed_statement(RepairStep::SetAside) == "UPDATE page SET video_id = -id"@
            + " WHERE video_id NOT IN (SELECT id FROM video)"@,
        fixed_statement(RepairStep::DropDuplicate) == "DELETE FROM page"@ + " WHERE id = ?"@,
        fixed_statement(RepairStep::MarkDeleted) == "UPDATE video SET deleted = 1"@
            + " WHERE id = ?"@,
        fixed_statement(RepairStep::ListAttached) == "SELECT DISTINCT video_id FROM page"@
            + " WHERE video_id > 0"@,
        fixed_statement(RepairStep::ListSources)
            == "SELECT DISTINCT submission_id, collection_id, favorite_id, watch_later_id, source_id, source_type FROM video"@
            + " WHERE deleted = 1 AND id IN (SELECT value FROM json_each(?))"@,
{
    reveal_strlit(
        "SELECT p1.id, p1.cid, v.id as correct_video_id, p2.id as existing_id, p2.cid as existing_cid",
    );
    reveal_strlit(
        " FROM page p1 JOIN video v ON p1.cid = v.cid LEFT JOIN page p2 ON v.id = p2.video_id AND p2.pid = 1",
    );
    reveal_strlit(" WHERE p1.video_id < 0 AND p1.pid = 1 AND p2.id IS NOT NULL");
    reveal_strlit(
        "SELECT p1.id, p1.cid, v.id as correct_video_id, p2.id as existing_id, p2.cid as existing_cid FROM page p1 JOIN video v ON p1.cid = v.cid LEFT JOIN page p2 ON v.id = p2.video_id AND p2.pid = 1 WHERE p1.video_id < 0 AND p1.pid = 1 AND p2.id IS NOT NULL",
    );
    assert(fixed_statement(RepairStep::ListConflicts)
        =~= "SELECT p1.id, p1.cid, v.id as correct_video_id, p2.id as existing_id, p2.cid as existing_cid"@
        + " FROM page p1 JOIN video v ON p1.cid = v.cid LEFT JOIN page p2 ON v.id = p2.video_id AND p2.pid = 1"@
        + " WHERE p1.video_id < 0 AND p1.pid = 1 AND p2.id IS NOT NULL"@);
    reveal_strlit("SELECT COUNT(*) as count FROM page p");
    reveal_strlit(" LEFT JOIN video v ON p.video_id = v.id WHERE v.id IS NULL");
    reveal_strlit(
        "SELECT COUNT(*) as count FROM page p LEFT JOIN video v ON p.video_id = v.id WHERE v.id IS NULL",
    );
    assert(fixed_statement(RepairStep::CountLost) =~= "SELECT COUNT(*) as count FROM page p"@
        + " LEFT JOIN video v ON p.video_id = v.id WHERE v.id IS NULL"@);
    reveal_strlit("UPDATE page SET video_id = -id");
    reveal_strlit(" WHERE video_id NOT IN (SELECT id FROM video)");
    reveal_strlit("UPDATE page SET video_id = -id WHERE video_id NOT IN (SELECT id FROM video)");
    assert(fixed_statement(RepairStep::SetAside) =~= "UPDATE page SET video_id = -id"@
        + " WHERE video_id NOT IN (SELECT id FROM video)"@);
    reveal_strlit("DELETE FROM page");
    reveal_strlit(" WHERE id = ?");
    reveal_strlit("DELETE FROM page WHERE id = ?");
    assert(fixed_statement(RepairStep::DropDuplicate) =~= "DELETE FROM page"@ + " WHERE id = ?"@);
    reveal_strlit("UPDATE video SET deleted = 1");
    reveal_strlit("UPDATE video SET deleted = 1 WHERE id = ?");
    assert(fixed_statement(RepairStep::MarkDeleted) =~= "UPDATE video SET deleted = 1"@
        + " WHERE id = ?"@);
    reveal_strlit("SELECT DISTINCT video_id FROM page");
    reveal_strlit(" WHERE video_id > 0");
    reveal_strlit("SELECT DISTINCT video_id FROM page WHERE video_id > 0");
    assert(fixed_statement(RepairStep::ListAttached) =~= "SELECT DISTINCT video_id FROM page"@
        + " WHERE video_id > 0"@);
    reveal_strlit(
        "SELECT DISTINCT submission_id, collection_id, favorite_id, watch_later_id, source_id, source_type FROM video",
    );
    reveal_strlit(" WHERE deleted = 1 AND id IN (SELECT value FROM json_each(?))");
    reveal_strlit(
        "SELECT DISTINCT submission_id, collection_id, favorite_id, watch_later_id, source_id, source_type FROM video WHERE deleted = 1 AND id IN (SELECT value FROM json_each(?))",
    );
    assert(fixed_statement(RepairStep::ListSources)
        =~= "SELECT DISTINCT submission_id, collection_id, favorite_id, watch_later_id, source_id, source_type FROM video"@
        + " WHERE deleted = 1 AND id IN (SELECT value FROM json_each(?))"@);
}

}
