//! The column that says whether the comments on the videos of a source are downloaded.

use vstd::prelude::*;

use crate::source_update::{table_name, table_text, SourceTable};
use crate::text::texts;

verus! {

/// The change of the database that adds the column. Each statement stands for itself: one that
/// fails is passed over.
#[derive(Debug, Clone, Copy)]
pub struct Migration;

/// The tables that get the column, in order.
pub open spec fn migrated_tables() -> Seq<SourceTable> {
    seq![
        SourceTable::Collection,
        SourceTable::Favorite,
        SourceTable::Submission,
        SourceTable::WatchLater,
        SourceTable::VideoSource,
    ]
}

/// The statement that adds the column to a table.
pub open spec fn add_column(table: SourceTable) -> Seq<char> {
    "ALTER TABLE "@ + table_text(table)
        + " ADD COLUMN download_danmaku BOOLEAN NOT NULL DEFAULT 0"@
}

/// The statement that removes the column from a table.
pub open spec fn drop_column(table: SourceTable) -> Seq<char> {
    "ALTER TABLE "@ + table_text(table) + " DROP COLUMN download_danmaku"@
}

fn alter_table(table: SourceTable, change: &str) -> (statement: String)
    ensures
        statement@ == "ALTER TABLE "@ + table_text(table) + change@,
{
    let mut statement = "ALTER TABLE ".to_owned();
    statement.append(table_name(table));
    statement.append(change);
    statement
}

fn alter_tables(change: &str) -> (statements: Vec<String>)
    ensures
        statements@.len() == migrated_tables().len(),
        forall|i: int|
            0 <= i < statements@.len() ==> (#[trigger] statements@[i])@ == "ALTER TABLE "@
                + table_text(migrated_tables()[i]) + change@,
{
    let mut statements: Vec<String> = Vec::new();
    statements.push(alter_table(SourceTable::Collection, change));
    statements.push(alter_table(SourceTable::Favorite, change));
    statements.push(alter_table(SourceTable::Submission, change));
    statements.push(alter_table(SourceTable::WatchLater, change));
    statements.push(alter_table(SourceTable::VideoSource, change));
    statements
}

impl Migration {
    /// The statements that add the column.
    pub fn up(&self) -> (statements: Vec<String>)
        ensures
            texts(statements@) == migrated_tables().map_values(
                |table: SourceTable| add_column(table),
            ),
    {
        let statements = alter_tables(" ADD COLUMN download_danmaku BOOLEAN NOT NULL DEFAULT 0");
        assert(texts(statements@) =~= migrated_tables().map_values(
            |table: SourceTable| add_column(table),
        ));
        statements
    }

    /// The statements that remove the column.
    pub fn down(&self) -> (statements: Vec<String>)
        ensures
            texts(statements@) == migrated_tables().map_values(
                |table: SourceTable| drop_column(table),
            ),
    {
        let statements = alter_tables(" DROP COLUMN download_danmaku");
        assert(texts(statements@) =~= migrated_tables().map_values(
            |table: SourceTable| drop_column(table),
        ));
        statements
    }
}

/// Every table of sources is changed, and none twice: what going up adds, going down removes.
pub proof fn every_table_is_migrated(table: SourceTable)
    ensures
        migrated_tables().contains(table),
        migrated_tables().no_duplicates(),
{
    let tables = migrated_tables();
    match table {
        SourceTable::Collection => assert(tables[0] == table),
        SourceTable::Favorite => assert(tables[1] == table),
        SourceTable::Submission => assert(tables[2] == table),
        SourceTable::WatchLater => assert(tables[3] == table),
        SourceTable::VideoSource => assert(tables[4] == table),
    }
}

/// A table of sources: how many rows it has, and what the column holds in each of them, if the
/// table has the column.
pub struct SourceColumn {
    pub rows: nat,
    pub values: Option<Seq<bool>>,
}

/// What a table is after the statement that adds the column. The statement fails where the column
/// is there, and then leaves the table as it is. This, like `dropped`, is the author's reading of the
/// statement, which no code is held to.
pub open spec fn added(table: SourceColumn) -> SourceColumn {
    if table.values is Some {
        table
    } else {
        SourceColumn { values: Some(Seq::new(table.rows, |row: int| false)), ..table }
    }
}

/// What a table is after the statement that removes the column. The statement fails where the column
/// is not there, and then leaves the table as it is.
pub open spec fn dropped(table: SourceColumn) -> SourceColumn {
    SourceColumn { values: None, ..table }
}

/// What the tables are after one statement each for these tables, in order. A statement for a table
/// that is not there fails too. None that fails keeps the others from being run.
pub open spec fn run_each(
    tables: Map<SourceTable, SourceColumn>,
    order: Seq<SourceTable>,
    change: spec_fn(SourceColumn) -> SourceColumn,
) -> Map<SourceTable, SourceColumn>
    decreases order.len(),
{
    if order.len() == 0 {
        tables
    } else {
        let before = run_each(tables, order.drop_last(), change);
        let table = order.last();
        if before.dom().contains(table) {
            before.insert(table, change(before[table]))
        } else {
            before
        }
    }
}

/// What the tables are after going up.
pub open spec fn after_up(tables: Map<SourceTable, SourceColumn>) -> Map<
    SourceTable,
    SourceColumn,
> {
    run_each(tables, migrated_tables(), |table: SourceColumn| added(table))
}

/// What the tables are after going down.
pub open spec fn after_down(tables: Map<SourceTable, SourceColumn>) -> Map<
    SourceTable,
    SourceColumn,
> {
    run_each(tables, migrated_tables(), |table: SourceColumn| dropped(table))
}

proof fn each_is_changed_once(
    tables: Map<SourceTable, SourceColumn>,
    order: Seq<SourceTable>,
    change: spec_fn(SourceColumn) -> SourceColumn,
    table: SourceTable,
)
    requires
        order.no_duplicates(),
    ensures
        run_each(tables, order, change).dom() == tables.dom(),
        tables.dom().contains(table) ==> run_each(tables, order, change)[table] == (
        if order.contains(table) {
            change(tables[table])
        } else {
            tables[table]
        }),
    decreases order.len(),
{
    if order.len() > 0 {
        let front = order.drop_last();
        let before = run_each(tables, front, change);
        each_is_changed_once(tables, front, change, table);
        each_is_changed_once(tables, front, change, order.last());
        assert(run_each(tables, order, change).dom() =~= tables.dom());
        assert(order.last() == order[order.len() - 1]);
        assert(!front.contains(order.last()));
        if order.contains(table) && table != order.last() {
            let i = choose|i: int| 0 <= i < order.len() && order[i] == table;
            assert(front[i] == table);
        }
        if front.contains(table) {
            let i = choose|i: int| 0 <= i < front.len() && front[i] == table;
            assert(order[i] == table);
        }
    }
}

/// After going up every table that is there has the column, whatever became of the statements for
/// the others. Where a table had the column, all its values are kept; where it had not, the column
/// holds no in every row. No table is added and none is lost.
pub proof fn up_adds_the_column(tables: Map<SourceTable, SourceColumn>, table: SourceTable)
    requires
        tables.dom().contains(table),
    ensures
        after_up(tables).dom() == tables.dom(),
        after_up(tables)[table].rows == tables[table].rows,
        after_up(tables)[table].values is Some,
        tables[table].values is Some ==> after_up(tables)[table] == tables[table],
        tables[table].values is None ==> {
            let values = after_up(tables)[table].values->Some_0;
            values.len() == tables[table].rows && forall|row: int|
                0 <= row < values.len() ==> !#[trigger] values[row]
        },
{
    every_table_is_migrated(table);
    each_is_changed_once(tables, migrated_tables(), |table: SourceColumn| added(table), table);
}

/// Going up a second time changes nothing.
pub proof fn second_up_changes_nothing(tables: Map<SourceTable, SourceColumn>)
    ensures
        after_up(after_up(tables)) == after_up(tables),
{
    let once = after_up(tables);
    let add = |table: SourceColumn| added(table);
    every_table_is_migrated(SourceTable::Collection);
    each_is_changed_once(tables, migrated_tables(), add, SourceTable::Collection);
    each_is_changed_once(once, migrated_tables(), add, SourceTable::Collection);
    assert forall|table: SourceTable| #[trigger] once.dom().contains(table) implies after_up(
        once,
    )[table] == once[table] by {
        up_adds_the_column(tables, table);
        up_adds_the_column(once, table);
    }
    assert(after_up(once) =~= once);
}

/// Going down undoes going up where no table had the column.
pub proof fn down_undoes_up(tables: Map<SourceTable, SourceColumn>)
    requires
        forall|table: SourceTable| #[trigger]
            tables.dom().contains(table) ==> tables[table].values is None,
    ensures
        after_down(after_up(tables)) == tables,
{
    let up = after_up(tables);
    let drop = |table: SourceColumn| dropped(table);
    every_table_is_migrated(SourceTable::Collection);
    each_is_changed_once(
        tables,
        migrated_tables(),
        |table: SourceColumn| added(table),
        SourceTable::Collection,
    );
    each_is_changed_once(up, migrated_tables(), drop, SourceTable::Collection);
    assert forall|table: SourceTable| #[trigger] tables.dom().contains(table) implies after_down(
        up,
    )[table] == tables[table] by {
        every_table_is_migrated(table);
        up_adds_the_column(tables, table);
        each_is_changed_once(up, migrated_tables(), drop, table);
    }
    assert(after_down(up) =~= tables);
}

/// Going up alters each table of sources by its own name, and adds a column that is never empty and
/// holds no at first.
pub proof fn up_names_every_table(at: int)
    requires
        0 <= at < 5,
    ensures
        ({
            let statement = migrated_tables().map_values(
                |table: SourceTable| add_column(table),
            )[at];
            let change = " ADD COLUMN download_danmaku BOOLEAN NOT NULL DEFAULT 0"@;
            &&& at == 0 ==> statement == "ALTER TABLE collection"@ + change
            &&& at == 1 ==> statement == "ALTER TABLE favorite"@ + change
            &&& at == 2 ==> statement == "ALTER TABLE submission"@ + change
            &&& at == 3 ==> statement == "ALTER TABLE watch_later"@ + change
            &&& at == 4 ==> statement == "ALTER TABLE video_source"@ + change
        }),
{
    tables_are_altered_by_name();
}

/// Going down alters the same tables, and drops the column that going up adds.
pub proof fn down_names_every_table(at: int)
    requires
        0 <= at < 5,
    ensures
        ({
            let statement = migrated_tables().map_values(
                |table: SourceTable| drop_column(table),
            )[at];
            let change = " DROP COLUMN download_danmaku"@;
            &&& at == 0 ==> statement == "ALTER TABLE collection"@ + change
            &&& at == 1 ==> statement == "ALTER TABLE favorite"@ + change
            &&& at == 2 ==> statement == "ALTER TABLE submission"@ + change
            &&& at == 3 ==> statement == "ALTER TABLE watch_later"@ + change
            &&& at == 4 ==> statement == "ALTER TABLE video_source"@ + change
        }),
{
    tables_are_altered_by_name();
}

proof fn tables_are_altered_by_name()
    ensures
        "ALTER TABLE "@ + table_text(SourceTable::Collection) == "ALTER TABLE collection"@,
        "ALTER TABLE "@ + table_text(SourceTable::Favorite) == "ALTER TABLE favorite"@,
        "ALTER TABLE "@ + table_text(SourceTable::Submission) == "ALTER TABLE submission"@,
        "ALTER TABLE "@ + table_text(SourceTable::WatchLater) == "ALTER TABLE watch_later"@,
        "ALTER TABLE "@ + table_text(SourceTable::VideoSource) == "ALTER TABLE video_source"@,
{
    reveal_strlit("ALTER TABLE ");
    reveal_strlit("collection");
    reveal_strlit("favorite");
    reveal_strlit("submission");
    reveal_strlit("watch_later");
    reveal_strlit("video_source");
    reveal_strlit("ALTER TABLE collection");
    reveal_strlit("ALTER TABLE favorite");
    reveal_strlit("ALTER TABLE submission");
    reveal_strlit("ALTER TABLE watch_later");
    reveal_strlit("ALTER TABLE video_source");
    assert("ALTER TABLE "@ + "collection"@ =~= "ALTER TABLE collection"@);
    assert("ALTER TABLE "@ + "favorite"@ =~= "ALTER TABLE favorite"@);
    assert("ALTER TABLE "@ + "submission"@ =~= "ALTER TABLE submission"@);
    assert("ALTER TABLE "@ + "watch_later"@ =~= "ALTER TABLE watch_later"@);
    assert("ALTER TABLE "@ + "video_source"@ =~= "ALTER TABLE video_source"@);
}

}
