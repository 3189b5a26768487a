use bili_sync::migration::Migration;
use bili_sync::repair::{find_duplicates, Conflict, Repair, RepairReply, RepairStep};
use bili_sync::source_update::{
    collect_sources, source_of, source_updates, table_name, SourceRow, SourceTable,
};
use bili_sync::sql::{lists, numbers_without, placeholders, SqlValue};

fn row(submission: Option<i32>, source: Option<i32>, kind: Option<i32>) -> SourceRow {
    SourceRow {
        submission_id: submission,
        collection_id: None,
        favorite_id: Some(3),
        watch_later_id: None,
        source_id: source,
        source_type: kind,
    }
}

#[test]
fn lists_of_numbers_are_subtracted() {
    assert!(lists(&vec![1, 2], 2));
    assert!(!lists(&vec![1, 2], 3));
    assert_eq!(numbers_without(&vec![1, 2, 3, 2], &vec![2, 9]), vec![1, 3]);
    assert_eq!(placeholders(0), "");
    assert_eq!(placeholders(1), "?");
    assert_eq!(placeholders(3), "?,?,?");
}

#[test]
fn sources_are_collected_once() {
    let rows = vec![row(Some(5), Some(8), Some(1)), row(Some(5), Some(9), Some(2)), row(Some(4), None, Some(1))];
    assert_eq!(collect_sources(&rows, SourceTable::Submission), vec![5, 4]);
    assert_eq!(collect_sources(&rows, SourceTable::Favorite), vec![3]);
    assert_eq!(collect_sources(&rows, SourceTable::VideoSource), vec![8]);
    assert!(collect_sources(&rows, SourceTable::WatchLater).is_empty());
    assert_eq!(source_of(&rows[1], SourceTable::VideoSource), None);
    let updates = source_updates(&rows);
    let tables: Vec<&str> = updates.iter().map(|update| table_name(update.table)).collect();
    assert_eq!(tables, vec!["submission", "favorite", "video_source"]);
}

#[test]
fn duplicates_have_the_same_number() {
    let conflicts = vec![
        Conflict { page_id: 1, page_cid: 10, existing_cid: 10 },
        Conflict { page_id: 2, page_cid: 10, existing_cid: 11 },
        Conflict { page_id: 3, page_cid: 12, existing_cid: 12 },
    ];
    assert_eq!(find_duplicates(&conflicts), vec![1, 3]);
}

fn integers(values: &[SqlValue]) -> Vec<i64> {
    values
        .iter()
        .map(|value| match value {
            SqlValue::Integer(number) => *number,
            SqlValue::Text(text) => panic!("{}", text),
        })
        .collect()
}

#[test]
fn records_in_order_are_left_alone() {
    let repair = Repair::new();
    assert_eq!(repair.step(), RepairStep::CountMismatched);
    assert_eq!(
        repair.statement().unwrap().sql,
        "SELECT COUNT(*) as count FROM page p JOIN video v ON p.video_id = v.id WHERE p.pid = 1 AND v.cid IS NOT NULL AND p.cid != v.cid"
    );
    let repair = repair.advance(&RepairReply::Count(0));
    assert_eq!(repair.step(), RepairStep::CountLost);
    let repair = repair.advance(&RepairReply::Count(0));
    assert_eq!(repair.step(), RepairStep::CommitUnchanged);
    assert!(repair.statement().is_none());
    let repair = repair.advance(&RepairReply::Affected(0));
    assert_eq!(repair.step(), RepairStep::Finished);
    assert!(repair.statement().is_none());
}

#[test]
fn a_repair_without_mismatches_attaches_and_removes() {
    let mut repair = Repair::new();
    let conflicts = vec![
        Conflict { page_id: 7, page_cid: 10, existing_cid: 10 },
        Conflict { page_id: 8, page_cid: 10, existing_cid: 10 },
        Conflict { page_id: 9, page_cid: 10, existing_cid: 99 },
    ];
    let replies = vec![
        RepairReply::Count(0),
        RepairReply::Count(2),
        RepairReply::Affected(2),
        RepairReply::Affected(1),
        RepairReply::Conflicts(conflicts),
    ];
    let steps = [
        RepairStep::CountLost,
        RepairStep::SetAside,
        RepairStep::AttachFirst,
        RepairStep::ListConflicts,
        RepairStep::DropDuplicate,
    ];
    for (reply, step) in replies.iter().zip(steps) {
        repair = repair.advance(reply);
        assert_eq!(repair.step(), step);
    }
    let statement = repair.statement().unwrap();
    assert_eq!(statement.sql, "DELETE FROM page WHERE id = ?");
    assert_eq!(integers(&statement.values), vec![7]);
    repair = repair.advance(&RepairReply::Affected(1));
    assert_eq!(integers(&repair.statement().unwrap().values), vec![8]);
    repair = repair.advance(&RepairReply::Affected(1));
    assert_eq!(repair.step(), RepairStep::AttachRest);
    repair = repair.advance(&RepairReply::Affected(1));
    assert_eq!(repair.step(), RepairStep::CountOrphans);
    repair = repair.advance(&RepairReply::Count(1));
    assert_eq!(repair.step(), RepairStep::DropOrphans);
    assert_eq!(repair.statement().unwrap().sql, "DELETE FROM page WHERE video_id < 0");
    repair = repair.advance(&RepairReply::Affected(1));
    assert_eq!(repair.step(), RepairStep::Commit);
    repair = repair.advance(&RepairReply::Affected(0));
    assert_eq!(repair.step(), RepairStep::CountLeft);
    repair = repair.advance(&RepairReply::Count(0));
    assert_eq!(repair.step(), RepairStep::Finished);
}

fn repair_with_mismatches() -> Repair {
    let replies = vec![
        RepairReply::Count(3),
        RepairReply::Ids(vec![4, 5, 6]),
        RepairReply::Affected(3),
        RepairReply::Count(1),
        RepairReply::Affected(1),
        RepairReply::Affected(0),
        RepairReply::Conflicts(Vec::new()),
        RepairReply::Affected(0),
        RepairReply::Count(0),
    ];
    let mut repair = Repair::new();
    for reply in &replies {
        repair = repair.advance(reply);
    }
    assert_eq!(repair.step(), RepairStep::ListAttached);
    repair
}

#[test]
fn bare_videos_are_marked_as_deleted() {
    let mut repair = repair_with_mismatches().advance(&RepairReply::Ids(vec![5, 77]));
    let mut marked = Vec::new();
    while repair.step() == RepairStep::MarkDeleted {
        let statement = repair.statement().unwrap();
        assert_eq!(statement.sql, "UPDATE video SET deleted = 1 WHERE id = ?");
        marked.extend(integers(&statement.values));
        repair = repair.advance(&RepairReply::Affected(if marked.len() == 1 { 1 } else { 0 }));
    }
    assert_eq!(marked, vec![4, 6]);
    assert_eq!(repair.step(), RepairStep::ListSources);
    match &repair.statement().unwrap().values[..] {
        [SqlValue::Text(json)] => assert_eq!(json, "[4,5,6]"),
        other => panic!("{:?}", other),
    }
    repair = repair.advance(&RepairReply::Sources(vec![row(Some(5), None, None), row(Some(2), None, None)]));
    assert_eq!(repair.step(), RepairStep::EnableScan);
    let statement = repair.statement().unwrap();
    assert_eq!(
        statement.sql,
        "UPDATE submission SET scan_deleted_videos = 1 WHERE id IN (?,?) AND scan_deleted_videos = 0"
    );
    assert_eq!(integers(&statement.values), vec![5, 2]);
    repair = repair.advance(&RepairReply::Affected(2));
    let statement = repair.statement().unwrap();
    assert_eq!(
        statement.sql,
        "UPDATE favorite SET scan_deleted_videos = 1 WHERE id IN (?) AND scan_deleted_videos = 0"
    );
    assert_eq!(integers(&statement.values), vec![3]);
    repair = repair.advance(&RepairReply::Affected(0));
    assert_eq!(repair.step(), RepairStep::Commit);
}

#[test]
fn attached_videos_are_not_marked() {
    let repair = repair_with_mismatches().advance(&RepairReply::Ids(vec![6, 5, 4]));
    assert_eq!(repair.step(), RepairStep::Commit);
}

#[test]
fn sources_are_not_touched_if_nothing_was_marked() {
    let mut repair = repair_with_mismatches().advance(&RepairReply::Ids(Vec::new()));
    for _ in 0..3 {
        assert_eq!(repair.step(), RepairStep::MarkDeleted);
        repair = repair.advance(&RepairReply::Affected(0));
    }
    assert_eq!(repair.step(), RepairStep::Commit);
}

#[test]
fn marked_videos_without_sources_touch_none() {
    let mut repair = repair_with_mismatches().advance(&RepairReply::Ids(vec![5, 6]));
    repair = repair.advance(&RepairReply::Affected(1));
    assert_eq!(repair.step(), RepairStep::ListSources);
    repair = repair.advance(&RepairReply::Sources(Vec::new()));
    assert_eq!(repair.step(), RepairStep::Commit);
}

#[test]
fn the_column_is_added_to_every_table() {
    let up = Migration.up();
    assert_eq!(up.len(), 5);
    assert_eq!(
        up[0],
        "ALTER TABLE collection ADD COLUMN download_danmaku BOOLEAN NOT NULL DEFAULT 0"
    );
    assert_eq!(
        up[4],
        "ALTER TABLE video_source ADD COLUMN download_danmaku BOOLEAN NOT NULL DEFAULT 0"
    );
}

#[test]
fn the_column_is_removed_from_every_table() {
    assert_eq!(
        Migration.down(),
        vec![
            "ALTER TABLE collection DROP COLUMN download_danmaku",
            "ALTER TABLE favorite DROP COLUMN download_danmaku",
            "ALTER TABLE submission DROP COLUMN download_danmaku",
            "ALTER TABLE watch_later DROP COLUMN download_danmaku",
            "ALTER TABLE video_source DROP COLUMN download_danmaku",
        ]
    );
}
