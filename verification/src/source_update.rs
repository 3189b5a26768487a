//! The sources that videos come from, and those of them whose deleted videos have to be looked for.

use vstd::prelude::*;

use crate::entity::SOURCE_TYPE_BANGUMI;

verus! {

/// The tables of the sources that videos come from.
#[derive(Debug, Clone, Copy, PartialEq, Eq, Structural)]
pub enum SourceTable {
    Submission,
    Collection,
    Favorite,
    WatchLater,
    VideoSource,
}

/// The name of a table.
pub open spec fn table_text(table: SourceTable) -> Seq<char> {
    match table {
        SourceTable::Submission => "submission"@,
        SourceTable::Collection => "collection"@,
        SourceTable::Favorite => "favorite"@,
        SourceTable::WatchLater => "watch_later"@,
        SourceTable::VideoSource => "video_source"@,
    }
}

/// The name of a table.
pub fn table_name(table: SourceTable) -> (name: &'static str)
    ensures
        name@ == table_text(table),
{
    match table {
        SourceTable::Submission => "submission",
        SourceTable::Collection => "collection",
        SourceTable::Favorite => "favorite",
        SourceTable::WatchLater => "watch_later",
        SourceTable::VideoSource => "video_source",
    }
}

/// The sources that a video is recorded with.
#[derive(Debug, Clone, Copy)]
pub struct SourceRow {
    pub submission_id: Option<i32>,
    pub collection_id: Option<i32>,
    pub favorite_id: Option<i32>,
    pub watch_later_id: Option<i32>,
    pub source_id: Option<i32>,
    pub source_type: Option<i32>,
}

/// The source of a video in a table. A series is known by its type.
pub open spec fn source_in(row: SourceRow, table: SourceTable) -> Option<i32> {
    match table {
        SourceTable::Submission => row.submission_id,
        SourceTable::Collection => row.collection_id,
        SourceTable::Favorite => row.favorite_id,
        SourceTable::WatchLater => row.watch_later_id,
        SourceTable::VideoSource => if row.source_type == Some(SOURCE_TYPE_BANGUMI) {
            row.source_id
        } else {
            None
        },
    }
}

/// The source of a video in a table.
pub fn source_of(row: &SourceRow, table: SourceTable) -> (source: Option<i32>)
    ensures
        source == source_in(*row, table),
{
    match table {
        SourceTable::Submission => row.submission_id,
        SourceTable::Collection => row.collection_id,
        SourceTable::Favorite => row.favorite_id,
        SourceTable::WatchLater => row.watch_later_id,
        SourceTable::VideoSource => match row.source_type {
            Some(kind) => if kind == SOURCE_TYPE_BANGUMI {
                row.source_id
            } else {
                None
            },
            None => None,
        },
    }
}

/// The sources in a table that the videos have, each once.
pub open spec fn sources_in(rows: Seq<SourceRow>, table: SourceTable) -> Seq<i32>
    decreases rows.len(),
{
    if rows.len() == 0 {
        Seq::empty()
    } else {
        let before = sources_in(rows.drop_last(), table);
        match source_in(rows.last(), table) {
            Some(source) => if before.contains(source) {
                before
            } else {
                before.push(source)
            },
            None => before,
        }
    }
}

/// The sources in a table that the videos have, each once.
pub fn collect_sources(rows: &Vec<SourceRow>, table: SourceTable) -> (sources: Vec<i32>)
    ensures
        sources@ == sources_in(rows@, table),
{
    let mut sources: Vec<i32> = Vec::new();
    let mut k: usize = 0;
    while k < rows.len()
        invariant
            k <= rows@.len(),
            sources@ == sources_in(rows@.take(k as int), table),
        decreases rows@.len() - k,
    {
        proof {
            assert(rows@.take(k + 1).drop_last() =~= rows@.take(k as int));
        }
        match source_of(&rows[k], table) {
            Some(source) => {
                let mut known: bool = false;
                let mut j: usize = 0;
                while j < sources.len()
                    invariant
                        j <= sources@.len(),
                        known <==> exists|i: int| 0 <= i < j && #[trigger] sources@[i] == source,
                    decreases sources@.len() - j,
                {
                    if sources[j] == source {
                        assert(sources@[j as int] == source);
                        known = true;
                    }
                    j += 1;
                }
                if !known {
                    sources.push(source);
                }
            },
            None => {},
        }
        k += 1;
    }
    assert(rows@.take(rows@.len() as int) =~= rows@);
    sources
}

/// A table and the sources in it whose deleted videos are looked for from now on.
#[derive(Debug, Clone)]
pub struct SourceUpdate {
    pub table: SourceTable,
    pub ids: Vec<i32>,
}

impl View for SourceUpdate {
    type V = (SourceTable, Seq<i32>);

    open spec fn view(&self) -> (SourceTable, Seq<i32>) {
        (self.table, self.ids@)
    }
}

/// The updates as tables and sources.
pub open spec fn updates_view(updates: Seq<SourceUpdate>) -> Seq<(SourceTable, Seq<i32>)> {
    updates.map_values(|update: SourceUpdate| update@)
}

/// The update of a table, if the videos have sources in it.
pub open spec fn update_in(rows: Seq<SourceRow>, table: SourceTable) -> Seq<
    (SourceTable, Seq<i32>),
> {
    if sources_in(rows, table).len() == 0 {
        Seq::empty()
    } else {
        seq![(table, sources_in(rows, table))]
    }
}

/// The updates of the tables in which the videos have sources.
pub open spec fn updates_for(rows: Seq<SourceRow>) -> Seq<(SourceTable, Seq<i32>)> {
    update_in(rows, SourceTable::Submission) + update_in(rows, SourceTable::Collection)
        + update_in(rows, SourceTable::Favorite) + update_in(rows, SourceTable::WatchLater)
        + update_in(rows, SourceTable::VideoSource)
}

fn append_update(rows: &Vec<SourceRow>, table: SourceTable, updates: &mut Vec<SourceUpdate>)
    ensures
        updates_view(final(updates)@) == updates_view(old(updates)@) + update_in(rows@, table),
{
    let ids = collect_sources(rows, table);
    if ids.len() > 0 {
        updates.push(SourceUpdate { table, ids });
    }
    assert(updates_view(updates@) =~= updates_view(old(updates)@) + update_in(rows@, table));
}

/// The updates of the tables in which the videos have sources.
pub fn source_updates(rows: &Vec<SourceRow>) -> (updates: Vec<SourceUpdate>)
    ensures
        updates_view(updates@) == updates_for(rows@),
{
    let mut updates: Vec<SourceUpdate> = Vec::new();
    append_update(rows, SourceTable::Submission, &mut updates);
    append_update(rows, SourceTable::Collection, &mut updates);
    append_update(rows, SourceTable::Favorite, &mut updates);
    append_update(rows, SourceTable::WatchLater, &mut updates);
    append_update(rows, SourceTable::VideoSource, &mut updates);
    assert(updates_view(updates@) =~= updates_for(rows@));
    updates
}

/// Every source of a video is looked at, and none twice.
pub proof fn sources_are_collected(rows: Seq<SourceRow>, table: SourceTable)
    ensures
        sources_in(rows, table).no_duplicates(),
        forall|source: i32| #[trigger]
            sources_in(rows, table).contains(source) <==> exists|i: int|
                0 <= i < rows.len() && source_in(#[trigger] rows[i], table) == Some(source),
    decreases rows.len(),
{
    if rows.len() > 0 {
        let head = rows.drop_last();
        let before = sources_in(head, table);
        let after = sources_in(rows, table);
        sources_are_collected(head, table);
        assert forall|source: i32| #[trigger] after.contains(source) implies exists|i: int|
            0 <= i < rows.len() && source_in(#[trigger] rows[i], table) == Some(source) by {
            if before.contains(source) {
                let i = choose|i: int|
                    0 <= i < head.len() && source_in(#[trigger] head[i], table) == Some(source);
                assert(source_in(rows[i], table) == Some(source));
            } else {
                assert(source_in(rows[rows.len() - 1], table) == Some(source));
            }
        }
        assert forall|source: i32|
            (exists|i: int|
                0 <= i < rows.len() && source_in(#[trigger] rows[i], table) == Some(
                    source,
                )) implies #[trigger] after.contains(source) by {
            let i = choose|i: int|
                0 <= i < rows.len() && source_in(#[trigger] rows[i], table) == Some(source);
            if i < head.len() {
                assert(source_in(head[i], table) == Some(source));
                assert(before.contains(source));
                let j = choose|j: int| 0 <= j < before.len() && before[j] == source;
                assert(after[j] == source);
            } else {
                if before.contains(source) {
                } else {
                    assert(after[before.len() as int] == source);
                }
            }
        }
    }
}

/// Each column of a row belongs to one table: the sources that are collected in a table are those
/// that stand in its column, and the last table takes the sources of series only.
pub proof fn every_column_has_its_table(rows: Seq<SourceRow>, id: i32)
    ensures
        sources_in(rows, SourceTable::Submission).contains(id) <==> exists|i: int|
            0 <= i < rows.len() && (#[trigger] rows[i]).submission_id == Some(id),
        sources_in(rows, SourceTable::Collection).contains(id) <==> exists|i: int|
            0 <= i < rows.len() && (#[trigger] rows[i]).collection_id == Some(id),
        sources_in(rows, SourceTable::Favorite).contains(id) <==> exists|i: int|
            0 <= i < rows.len() && (#[trigger] rows[i]).favorite_id == Some(id),
        sources_in(rows, SourceTable::WatchLater).contains(id) <==> exists|i: int|
            0 <= i < rows.len() && (#[trigger] rows[i]).watch_later_id == Some(id),
        sources_in(rows, SourceTable::VideoSource).contains(id) <==> exists|i: int|
            0 <= i < rows.len() && (#[trigger] rows[i]).source_id == Some(id)
                && rows[i].source_type == Some(1i32),
{
    sources_are_collected(rows, SourceTable::Submission);
    sources_are_collected(rows, SourceTable::Collection);
    sources_are_collected(rows, SourceTable::Favorite);
    sources_are_collected(rows, SourceTable::WatchLater);
    sources_are_collected(rows, SourceTable::VideoSource);
    assert forall|i: int| 0 <= i < rows.len() implies {
        let row = #[trigger] rows[i];
        &&& source_in(row, SourceTable::Submission) == Some(id) <==> row.submission_id == Some(id)
        &&& source_in(row, SourceTable::Collection) == Some(id) <==> row.collection_id == Some(id)
        &&& source_in(row, SourceTable::Favorite) == Some(id) <==> row.favorite_id == Some(id)
        &&& source_in(row, SourceTable::WatchLater) == Some(id) <==> row.watch_later_id == Some(id)
        &&& source_in(row, SourceTable::VideoSource) == Some(id) <==> row.source_id == Some(id)
            && row.source_type == Some(1i32)
    } by {}
}

/// An update of this table reaches the source.
pub open spec fn reaches(
    updates: Seq<(SourceTable, Seq<i32>)>,
    table: SourceTable,
    id: i32,
) -> bool {
    exists|k: int|
        0 <= k < updates.len() && (#[trigger] updates[k]).0 == table && updates[k].1.contains(id)
}

proof fn joined_updates_reach(
    first: Seq<(SourceTable, Seq<i32>)>,
    second: Seq<(SourceTable, Seq<i32>)>,
    table: SourceTable,
    id: i32,
)
    ensures
        reaches(first + second, table, id) <==> reaches(first, table, id) || reaches(
            second,
            table,
            id,
        ),
{
    let both = first + second;
    if reaches(first, table, id) {
        let k = choose|k: int|
            0 <= k < first.len() && (#[trigger] first[k]).0 == table && first[k].1.contains(id);
        assert(both[k] == first[k]);
    }
    if reaches(second, table, id) {
        let k = choose|k: int|
            0 <= k < second.len() && (#[trigger] second[k]).0 == table && second[k].1.contains(id);
        assert(both[first.len() + k] == second[k]);
    }
    if reaches(both, table, id) {
        let k = choose|k: int|
            0 <= k < both.len() && (#[trigger] both[k]).0 == table && both[k].1.contains(id);
        if k < first.len() {
            assert(both[k] == first[k]);
        } else {
            assert(both[k] == second[k - first.len()]);
        }
    }
}

proof fn update_in_reaches(rows: Seq<SourceRow>, own: SourceTable, table: SourceTable, id: i32)
    ensures
        reaches(update_in(rows, own), table, id) <==> own == table && sources_in(
            rows,
            table,
        ).contains(id),
{
    let updates = update_in(rows, own);
    if own == table && sources_in(rows, table).contains(id) {
        assert(updates[0].0 == table && updates[0].1.contains(id));
    }
}

/// The updates reach exactly the sources that were collected, each in its own table.
pub proof fn updates_reach_what_was_collected(rows: Seq<SourceRow>, table: SourceTable, id: i32)
    ensures
        reaches(updates_for(rows), table, id) <==> sources_in(rows, table).contains(id),
{
    let a = update_in(rows, SourceTable::Submission);
    let b = update_in(rows, SourceTable::Collection);
    let c = update_in(rows, SourceTable::Favorite);
    let d = update_in(rows, SourceTable::WatchLater);
    let e = update_in(rows, SourceTable::VideoSource);
    update_in_reaches(rows, SourceTable::Submission, table, id);
    update_in_reaches(rows, SourceTable::Collection, table, id);
    update_in_reaches(rows, SourceTable::Favorite, table, id);
    update_in_reaches(rows, SourceTable::WatchLater, table, id);
    update_in_reaches(rows, SourceTable::VideoSource, table, id);
    joined_updates_reach(a, b, table, id);
    joined_updates_reach(a + b, c, table, id);
    joined_updates_reach(a + b + c, d, table, id);
    joined_updates_reach(a + b + c + d, e, table, id);
}

/// A source of a video is updated in the table of the column that it stands in, and in no other: an
/// update of a table reaches a number exactly where the number stands in its column.
pub proof fn updates_follow_the_columns(rows: Seq<SourceRow>, id: i32)
    ensures
        reaches(updates_for(rows), SourceTable::Submission, id) <==> exists|i: int|
            0 <= i < rows.len() && (#[trigger] rows[i]).submission_id == Some(id),
        reaches(updates_for(rows), SourceTable::Collection, id) <==> exists|i: int|
            0 <= i < rows.len() && (#[trigger] rows[i]).collection_id == Some(id),
        reaches(updates_for(rows), SourceTable::Favorite, id) <==> exists|i: int|
            0 <= i < rows.len() && (#[trigger] rows[i]).favorite_id == Some(id),
        reaches(updates_for(rows), SourceTable::WatchLater, id) <==> exists|i: int|
            0 <= i < rows.len() && (#[trigger] rows[i]).watch_later_id == Some(id),
        reaches(updates_for(rows), SourceTable::VideoSource, id) <==> exists|i: int|
            0 <= i < rows.len() && (#[trigger] rows[i]).source_id == Some(id)
                && rows[i].source_type == Some(1i32),
{
    every_column_has_its_table(rows, id);
    updates_reach_what_was_collected(rows, SourceTable::Submission, id);
    updates_reach_what_was_collected(rows, SourceTable::Collection, id);
    updates_reach_what_was_collected(rows, SourceTable::Favorite, id);
    updates_reach_what_was_collected(rows, SourceTable::WatchLater, id);
    updates_reach_what_was_collected(rows, SourceTable::VideoSource, id);
}

/// No update is empty, no table is updated twice, and no source stands twice in an update.
pub proof fn updates_are_lean(rows: Seq<SourceRow>)
    ensures
        updates_for(rows).len() <= 5,
        forall|k: int|
            0 <= k < updates_for(rows).len() ==> (#[trigger] updates_for(rows)[k]).1.len() > 0
                && updates_for(rows)[k].1.no_duplicates(),
        forall|j: int, k: int|
            0 <= j < k < updates_for(rows).len() ==> (#[trigger] updates_for(rows)[j]).0 != (
            #[trigger] updates_for(rows)[k]).0,
{
    sources_are_collected(rows, SourceTable::Submission);
    sources_are_collected(rows, SourceTable::Collection);
    sources_are_collected(rows, SourceTable::Favorite);
    sources_are_collected(rows, SourceTable::WatchLater);
    sources_are_collected(rows, SourceTable::VideoSource);
}

/// Each kind of source is kept in the table of its name.
pub proof fn tables_have_their_names()
    ensures
        table_text(SourceTable::Submission) == "submission"@,
        table_text(SourceTable::Collection) == "collection"@,
        table_text(SourceTable::Favorite) == "favorite"@,
        table_text(SourceTable::WatchLater) == "watch_later"@,
        table_text(SourceTable::VideoSource) == "video_source"@,
{
}

}
