use std::future::Future;

use bili_sync::migration::Migration;
use bili_sync::repair::{Conflict, Repair, RepairReply, RepairStep};
use bili_sync::source_update::SourceRow;
use bili_sync::sql::{SqlStatement, SqlValue};
use sea_orm::{
    ConnectOptions, ConnectionTrait, Database, DatabaseBackend, DatabaseConnection, QueryResult,
    Statement, Value,
};

fn block_on<T>(work: impl Future<Output = T>) -> T {
    tokio::runtime::Builder::new_current_thread().enable_all().build().unwrap().block_on(work)
}

async fn open(schema: &[&str]) -> DatabaseConnection {
    let mut options = ConnectOptions::new("sqlite::memory:");
    options.max_connections(1);
    let db = Database::connect(options).await.unwrap();
    for sql in schema {
        db.execute_unprepared(sql).await.unwrap();
    }
    db
}

async fn rows(db: &DatabaseConnection, sql: &str) -> Vec<QueryResult> {
    db.query_all(Statement::from_string(DatabaseBackend::Sqlite, sql)).await.unwrap()
}

/// The rows that a query gives, each as numbers.
async fn numbers(db: &DatabaseConnection, columns: &[&str], table: &str) -> Vec<Vec<Option<i64>>> {
    let sql = format!("SELECT {} FROM {} ORDER BY id", columns.join(", "), table);
    rows(db, &sql)
        .await
        .iter()
        .map(|row| columns.iter().map(|name| row.try_get("", name).unwrap()).collect())
        .collect()
}

fn prepared(statement: SqlStatement) -> Statement {
    let values: Vec<Value> = statement
        .values
        .into_iter()
        .map(|value| match value {
            SqlValue::Integer(number) => Value::from(number),
            SqlValue::Text(text) => Value::from(text),
        })
        .collect();
    Statement::from_sql_and_values(DatabaseBackend::Sqlite, statement.sql, values)
}

/// Carries out the statement of a step.
async fn answer(db: &DatabaseConnection, repair: &Repair) -> RepairReply {
    let Some(statement) = repair.statement() else {
        return RepairReply::Affected(0);
    };
    let statement = prepared(statement);
    match repair.step() {
        RepairStep::CountMismatched
        | RepairStep::CountLost
        | RepairStep::CountOrphans
        | RepairStep::CountLeft => {
            let row = db.query_one(statement).await.unwrap().unwrap();
            RepairReply::Count(row.try_get("", "count").unwrap())
        }
        RepairStep::ListMismatched | RepairStep::ListAttached => RepairReply::Ids(
            db.query_all(statement)
                .await
                .unwrap()
                .iter()
                .map(|row| row.try_get("", "video_id").unwrap())
                .collect(),
        ),
        RepairStep::ListConflicts => RepairReply::Conflicts(
            db.query_all(statement)
                .await
                .unwrap()
                .iter()
                .map(|row| Conflict {
                    page_id: row.try_get("", "id").unwrap(),
                    page_cid: row.try_get("", "cid").unwrap(),
                    existing_cid: row.try_get("", "existing_cid").unwrap(),
                })
                .collect(),
        ),
        RepairStep::ListSources => RepairReply::Sources(
            db.query_all(statement)
                .await
                .unwrap()
                .iter()
                .map(|row| SourceRow {
                    submission_id: row.try_get("", "submission_id").unwrap(),
                    collection_id: row.try_get("", "collection_id").unwrap(),
                    favorite_id: row.try_get("", "favorite_id").unwrap(),
                    watch_later_id: row.try_get("", "watch_later_id").unwrap(),
                    source_id: row.try_get("", "source_id").unwrap(),
                    source_type: row.try_get("", "source_type").unwrap(),
                })
                .collect(),
        ),
        _ => RepairReply::Affected(db.execute(statement).await.unwrap().rows_affected()),
    }
}

async fn run_repair(db: &DatabaseConnection) -> Vec<RepairStep> {
    let mut repair = Repair::new();
    let mut steps = vec![repair.step()];
    while repair.step() != RepairStep::Finished {
        let reply = answer(db, &repair).await;
        repair = repair.advance(&reply);
        steps.push(repair.step());
    }
    steps
}

const PAGES_AND_VIDEOS: [&str; 4] = [
    "CREATE TABLE page (id INTEGER PRIMARY KEY, video_id INTEGER NOT NULL, pid INTEGER NOT NULL, \
     cid INTEGER NOT NULL, path TEXT, UNIQUE (video_id, pid))",
    "CREATE TABLE video (id INTEGER PRIMARY KEY, cid INTEGER, deleted INTEGER NOT NULL DEFAULT 0, \
     submission_id INTEGER, collection_id INTEGER, favorite_id INTEGER, watch_later_id INTEGER, \
     source_id INTEGER, source_type INTEGER)",
    "CREATE TABLE submission (id INTEGER PRIMARY KEY, scan_deleted_videos INTEGER NOT NULL)",
    "INSERT INTO submission VALUES (7, 0), (8, 0)",
];

const PAGE_COLUMNS: [&str; 4] = ["id", "video_id", "pid", "cid"];

async fn dump(db: &DatabaseConnection) -> Vec<Vec<Vec<Option<i64>>>> {
    vec![
        numbers(db, &PAGE_COLUMNS, "page").await,
        numbers(db, &["id", "cid", "deleted"], "video").await,
        numbers(db, &["id", "scan_deleted_videos"], "submission").await,
    ]
}

async fn broken_tables() -> DatabaseConnection {
    let db = open(&PAGES_AND_VIDEOS).await;
    db.execute_unprepared(
        "INSERT INTO video (id, cid, submission_id) VALUES (1, 100, 7), (2, 200, 8), (3, 300, 8), \
         (4, NULL, 8), (5, 500, 7)",
    )
    .await
    .unwrap();
    db.execute_unprepared(
        "INSERT INTO page (id, video_id, pid, cid, path) VALUES \
         (1, 1, 1, 100, '/a/1.mp4'), \
         (2, 99, 1, 200, '/b/1.mp4'), \
         (3, 99, 2, 201, '/b/2.mp4'), \
         (4, 98, 1, 100, '/c/1.mp4'), \
         (5, 97, 1, 999, '/d/1.mp4'), \
         (6, 5, 1, 501, '/e/1.mp4'), \
         (7, 4, 1, 1, NULL), \
         (8, 96, 2, 700, NULL)",
    )
    .await
    .unwrap();
    db
}

#[test]
fn a_repair_mends_the_tables() {
    block_on(async {
        let db = broken_tables().await;
        run_repair(&db).await;
        let row = |values: [i64; 4]| values.iter().map(|value| Some(*value)).collect::<Vec<_>>();
        assert_eq!(
            numbers(&db, &PAGE_COLUMNS, "page").await,
            vec![row([1, 1, 1, 100]), row([2, 2, 1, 200]), row([3, 2, 2, 201]), row([7, 4, 1, 1])]
        );
        let deleted = numbers(&db, &["id", "deleted"], "video").await;
        assert_eq!(
            deleted.iter().map(|row| row[1]).collect::<Vec<_>>(),
            vec![Some(0), Some(0), Some(0), Some(0), Some(1)]
        );
        assert_eq!(
            numbers(&db, &["id", "scan_deleted_videos"], "submission").await,
            vec![vec![Some(7), Some(1)], vec![Some(8), Some(0)]]
        );
    });
}

#[test]
fn a_second_repair_changes_nothing() {
    block_on(async {
        let db = broken_tables().await;
        run_repair(&db).await;
        let mended = dump(&db).await;
        let steps = run_repair(&db).await;
        assert_eq!(
            steps,
            vec![
                RepairStep::CountMismatched,
                RepairStep::CountLost,
                RepairStep::CommitUnchanged,
                RepairStep::Finished,
            ]
        );
        assert_eq!(dump(&db).await, mended);
    });
}

#[test]
fn a_repair_without_lost_pages_ends_early() {
    block_on(async {
        let db = open(&PAGES_AND_VIDEOS).await;
        db.execute_unprepared("INSERT INTO video (id, cid) VALUES (1, 100)").await.unwrap();
        db.execute_unprepared("INSERT INTO page (id, video_id, pid, cid) VALUES (1, 1, 1, 101)")
            .await
            .unwrap();
        let steps = run_repair(&db).await;
        assert!(steps.contains(&RepairStep::DropMismatched));
        assert!(steps.contains(&RepairStep::CommitUnchanged));
        assert!(numbers(&db, &PAGE_COLUMNS, "page").await.is_empty());
        assert_eq!(numbers(&db, &["deleted"], "video").await, vec![vec![Some(0)]]);
    });
}

#[test]
fn a_lost_page_takes_the_place_of_a_wrong_one() {
    block_on(async {
        let db = open(&PAGES_AND_VIDEOS).await;
        db.execute_unprepared("INSERT INTO video (id, cid, submission_id) VALUES (1, 100, 7), (2, 200, 7)")
            .await
            .unwrap();
        db.execute_unprepared(
            "INSERT INTO page (id, video_id, pid, cid, path) VALUES (1, 1, 1, 101, '/a/1.mp4'), \
             (2, 50, 1, 100, '/b/1.mp4'), (3, 50, 2, 102, '/b/2.mp4'), (4, 2, 1, 200, '/c/1.mp4')",
        )
        .await
        .unwrap();
        run_repair(&db).await;
        let row = |values: [i64; 4]| values.iter().map(|value| Some(*value)).collect::<Vec<_>>();
        assert_eq!(
            numbers(&db, &PAGE_COLUMNS, "page").await,
            vec![row([2, 1, 1, 100]), row([3, 1, 2, 102]), row([4, 2, 1, 200])]
        );
        assert_eq!(numbers(&db, &["deleted"], "video").await, vec![vec![Some(0)], vec![Some(0)]]);
        assert_eq!(
            numbers(&db, &["scan_deleted_videos"], "submission").await,
            vec![vec![Some(0)], vec![Some(0)]]
        );
    });
}

const SOURCE_TABLES: [&str; 5] = ["collection", "favorite", "submission", "watch_later", "video_source"];

async fn run_all(db: &DatabaseConnection, statements: Vec<String>) -> usize {
    let mut failures = 0;
    for sql in statements {
        if db.execute_unprepared(&sql).await.is_err() {
            failures += 1;
        }
    }
    failures
}

#[test]
fn going_up_twice_adds_the_column_once() {
    block_on(async {
        let db = open(&[]).await;
        for table in SOURCE_TABLES {
            let sql = format!("CREATE TABLE {} (id INTEGER PRIMARY KEY)", table);
            db.execute_unprepared(&sql).await.unwrap();
            db.execute_unprepared(&format!("INSERT INTO {} VALUES (1), (2)", table)).await.unwrap();
        }
        let early = "ALTER TABLE favorite ADD COLUMN download_danmaku BOOLEAN NOT NULL DEFAULT 1";
        db.execute_unprepared(early).await.unwrap();
        assert_eq!(run_all(&db, Migration.up()).await, 1);
        for table in SOURCE_TABLES {
            let kept = if table == "favorite" { Some(1) } else { Some(0) };
            let values = numbers(&db, &["download_danmaku"], table).await;
            assert_eq!(values, vec![vec![kept], vec![kept]]);
        }
        db.execute_unprepared("UPDATE submission SET download_danmaku = 1 WHERE id = 2").await.unwrap();
        assert_eq!(run_all(&db, Migration.up()).await, 5);
        assert_eq!(
            numbers(&db, &["download_danmaku"], "submission").await,
            vec![vec![Some(0)], vec![Some(1)]]
        );
        assert_eq!(run_all(&db, Migration.down()).await, 0);
        assert_eq!(run_all(&db, Migration.down()).await, 5);
    });
}
