use bili_sync::batch::{
    assign_owner_files, PageBatch, PageOutcome, PageReaction, PagesEnd, Reaction, VideoBatch,
};
use bili_sync::clock::Moment;
use bili_sync::entity::{StaffInfo, Submission, VideoModel};
use bili_sync::details::{
    advance_details, advance_staff_search, delete_task_id, detail_update, is_joint, is_locked,
    is_on_staff,
    judge_details_failure, judge_fetch_failure, last_staff_submission, owner_by_submission,
    start_staff_search, DetailReport, DetailStep, DetailsReaction, FetchReaction, StaffSearch,
};
use bili_sync::failure::{is_cancelled, is_damaged, is_logged_out, is_paused, ErrorType, Failure};
use bili_sync::fill::{fill_step, first_cid, FillStep};
use bili_sync::refresh::{
    advance_refresh, brief, briefs, collect_news, news_from, recent_threshold, start_refresh,
    ListEntry, ListScan, RecordedVideo, RefreshReport, RefreshStep, RefreshTally, VideoInfo,
};
use bili_sync::source_run::{advance_source, start_source, Report, SourceStep, Stage};

fn failure(message: &str, abort: bool) -> Failure {
    Failure { message: message.to_string(), abort }
}

fn failed(message: &str) -> Report {
    Report::Failed(failure(message, false))
}

fn at(seconds: i64) -> Moment {
    Moment { seconds, nanos: 0 }
}

fn video(upper_id: i64, season_id: Option<&str>) -> VideoModel {
    VideoModel {
        id: 1,
        bvid: "BV1".to_string(),
        name: "name".to_string(),
        upper_id,
        upper_name: "up".to_string(),
        upper_face: "face".to_string(),
        category: 2,
        cover: "cover".to_string(),
        pubtime: at(0),
        favtime: at(0),
        path: "path".to_string(),
        single_page: Some(true),
        season_id: season_id.map(|id| id.to_string()),
        ep_id: None,
        source_type: None,
        collection_id: None,
        episode_number: None,
        source_submission_id: None,
    }
}

fn staff(mid: i64, face: &str) -> StaffInfo {
    StaffInfo {
        mid,
        title: "UP主".to_string(),
        name: format!("name{}", mid),
        face: face.to_string(),
    }
}

fn submission(id: i32, upper_id: i64) -> Submission {
    Submission { id, upper_id, upper_name: format!("up{}", upper_id) }
}

#[test]
fn failures_are_told_by_their_message() {
    assert!(is_logged_out("request failed, status code: -101"));
    assert!(is_logged_out("账号未登录"));
    assert!(!is_logged_out("status code: -404"));
    assert!(is_cancelled("Download cancelled"));
    assert!(is_paused("任务已暂停", false));
    assert!(is_paused("停止下载", false));
    assert!(is_paused("用户主动暂停任务", false));
    assert!(is_paused("Download cancelled", true));
    assert!(!is_paused("Download cancelled", false));
    assert!(is_damaged("ffmpeg error: 1"));
    assert!(is_damaged("Invalid data found when processing input"));
    assert!(is_damaged("文件损坏"));
    assert!(!is_damaged("disk full"));
}

#[test]
fn a_run_goes_through_its_stages() {
    let mut step = start_source();
    let reports = [
        Report::Done,
        Report::Found(2),
        Report::Halted(false),
        Report::Done,
        Report::Done,
        failed("ignored"),
    ];
    let steps = [
        SourceStep::Refresh { again: false },
        SourceStep::CheckHalt { new_videos: 2 },
        SourceStep::Details { again: false },
        SourceStep::Download { again: false },
        SourceStep::RetryFailed,
        SourceStep::Succeed,
    ];
    assert_eq!(step, SourceStep::Resolve { again: false });
    for (report, expected) in reports.iter().zip(steps) {
        step = advance_source(step, report, false);
        assert_eq!(step, expected);
    }
    assert_eq!(advance_source(step, &failed("x"), false), SourceStep::Succeed);
}

#[test]
fn a_paused_run_stops_early() {
    let step = advance_source(SourceStep::CheckHalt { new_videos: 3 }, &Report::Halted(true), false);
    assert_eq!(step, SourceStep::Succeed);
}

#[test]
fn a_run_without_news_looks_for_work() {
    let step = advance_source(SourceStep::CheckHalt { new_videos: 0 }, &Report::Halted(false), false);
    assert_eq!(step, SourceStep::CheckPending);
    let nothing = Report::Pending { unfilled: false, unhandled: false, failed: false, danmaku: false };
    assert_eq!(advance_source(step, &nothing, false), SourceStep::Succeed);
    let comments = Report::Pending { unfilled: false, unhandled: false, failed: false, danmaku: true };
    assert_eq!(advance_source(step, &comments, false), SourceStep::Details { again: false });
}

#[test]
fn a_login_that_expired_is_refreshed_once() {
    let lost = failed("status code: -101");
    for (step, stage, again) in [
        (SourceStep::Resolve { again: false }, Stage::Resolve, SourceStep::Resolve { again: true }),
        (SourceStep::Refresh { again: false }, Stage::Refresh, SourceStep::Reopen),
        (SourceStep::Details { again: false }, Stage::Details, SourceStep::Details { again: true }),
        (SourceStep::Download { again: false }, Stage::Download, SourceStep::Download { again: true }),
    ] {
        let refresh = advance_source(step, &lost, false);
        assert_eq!(refresh, SourceStep::RefreshCredential { stage });
        assert_eq!(advance_source(refresh, &Report::Done, false), again);
        assert_eq!(advance_source(refresh, &failed("no"), false), SourceStep::Fail);
        assert_eq!(advance_source(again, &lost, false), SourceStep::Fail);
        assert_eq!(advance_source(step, &failed("other"), false), SourceStep::Fail);
    }
    assert_eq!(
        advance_source(SourceStep::Reopen, &Report::Done, false),
        SourceStep::Refresh { again: true }
    );
}

#[test]
fn a_refusal_while_fetching_details_fails_the_run() {
    let refusal = Report::Failed(failure("status code: -101", true));
    assert_eq!(
        advance_source(SourceStep::Details { again: false }, &refusal, false),
        SourceStep::Fail
    );
}

#[test]
fn only_scanning_downloads_nothing() {
    assert_eq!(
        advance_source(SourceStep::Details { again: false }, &Report::Done, true),
        SourceStep::Succeed
    );
}

#[test]
fn the_first_video_of_an_owner_brings_its_files() {
    let videos = vec![
        video(1, None),
        video(1, None),
        video(1, Some("s")),
        video(2, Some("s")),
        video(2, None),
        video(1, Some("t")),
    ];
    assert_eq!(assign_owner_files(&videos), vec![true, false, true, false, true, true]);
}

#[test]
fn a_refusal_cancels_the_other_downloads_once() {
    let mut batch = VideoBatch::new();
    assert_eq!(batch.react(&None, false), Reaction::Save);
    assert_eq!(batch.react(&Some(failure("other", false)), false), Reaction::Report);
    assert_eq!(batch.react(&Some(failure("任务已暂停", true)), false), Reaction::Paused);
    assert!(!batch.is_aborted());
    assert_eq!(batch.react(&Some(failure("Download cancelled", false)), false), Reaction::Cancel);
    assert!(batch.is_aborted());
    assert_eq!(batch.react(&Some(failure("refused", true)), false), Reaction::Ignore);
    assert_eq!(batch.react(&None, false), Reaction::Ignore);
}

#[test]
fn a_cancelled_download_counts_as_paused_while_tasks_are_paused() {
    let mut batch = VideoBatch::new();
    assert_eq!(batch.react(&Some(failure("Download cancelled", false)), true), Reaction::Paused);
    assert!(!batch.is_aborted());
}

#[test]
fn pages_succeed_if_all_their_tasks_do() {
    let mut batch = PageBatch::new(7, 4);
    assert_eq!(batch.react(1, "a", &PageOutcome::Processed([7; 5]), false), PageReaction::Save);
    assert_eq!(
        batch.react(2, "b", &PageOutcome::Failed(failure("任务已暂停", false)), false),
        PageReaction::Ignore
    );
    assert!(matches!(batch.conclude(), PagesEnd::Succeeded));
}

#[test]
fn the_least_state_of_all_pages_counts() {
    let mut batch = PageBatch::new(7, 4);
    batch.react(1, "a", &PageOutcome::Processed([7, 4, 7, 7, 7]), false);
    batch.react(2, "b", &PageOutcome::Processed([7, 7, 2, 7, 7]), false);
    match batch.conclude() {
        PagesEnd::Unfinished { status, details } => {
            assert_eq!(status, 2);
            assert_eq!(details, "请检查网络连接、文件系统权限或重试下载。");
        }
        other => panic!("{:?}", other),
    }
    assert_eq!(
        batch.react(3, "c", &PageOutcome::Failed(failure("x", false)), false),
        PageReaction::Report
    );
    assert_eq!(
        batch.react(4, "d", &PageOutcome::Failed(failure("Download cancelled", false)), false),
        PageReaction::Report
    );
    match batch.conclude() {
        PagesEnd::Unfinished { details, .. } => {
            assert_eq!(details, "失败的分页: 第3页 c: x; 第4页 d: Download cancelled");
        }
        other => panic!("{:?}", other),
    }
}

#[test]
fn pages_that_used_up_their_retries_end_without_an_error() {
    let mut batch = PageBatch::new(7, 4);
    batch.react(1, "a", &PageOutcome::Processed([7, 4, 7, 7, 7]), false);
    batch.react(2, "b", &PageOutcome::Processed([7; 5]), false);
    match batch.conclude() {
        PagesEnd::Exhausted { status, details } => {
            assert_eq!(status, 4);
            assert_eq!(details, "请检查网络连接、文件系统权限或重试下载。");
        }
        other => panic!("{:?}", other),
    }
    batch.react(3, "c", &PageOutcome::Failed(failure("x", false)), false);
    assert!(matches!(batch.conclude(), PagesEnd::Unfinished { status: 4, .. }));
}

#[test]
fn a_page_that_can_be_tried_again_is_unfinished() {
    let mut batch = PageBatch::new(7, 4);
    batch.react(1, "a", &PageOutcome::Processed([7, 4, 3, 7, 7]), false);
    assert!(matches!(batch.conclude(), PagesEnd::Unfinished { status: 3, .. }));
}

#[test]
fn a_page_that_failed_is_no_success() {
    let mut batch = PageBatch::new(7, 4);
    batch.react(1, "a", &PageOutcome::Processed([7; 5]), false);
    batch.react(2, "b", &PageOutcome::Failed(failure("x", false)), false);
    match batch.conclude() {
        PagesEnd::Broken { details } => assert_eq!(details, "失败的分页: 第2页 b: x"),
        other => panic!("{:?}", other),
    }
}

#[test]
fn a_refused_page_aborts_the_others() {
    let mut batch = PageBatch::new(7, 4);
    assert_eq!(
        batch.react(1, "a", &PageOutcome::Failed(failure("x", true)), false),
        PageReaction::Cancel
    );
    assert_eq!(
        batch.react(2, "b", &PageOutcome::Failed(failure("x", true)), false),
        PageReaction::Ignore
    );
    assert_eq!(batch.react(3, "c", &PageOutcome::Processed([0; 5]), false), PageReaction::Ignore);
    assert!(matches!(batch.conclude(), PagesEnd::Aborted));
}

#[test]
fn a_list_is_read_up_to_what_is_known() {
    let mut scan = ListScan::new(Some(at(100)));
    assert!(scan.observe(ListEntry::Video { released: at(300), wanted: true }, false));
    assert!(scan.observe(ListEntry::Video { released: at(1709210096), wanted: true }, false));
    assert!(!scan.observe(ListEntry::Video { released: at(50), wanted: false }, false));
    assert_eq!(scan.finish().unwrap(), Some("2024-02-29 20:34:56".to_string()));
}

#[test]
fn a_list_without_news_keeps_the_known_time() {
    let mut scan = ListScan::new(None);
    assert!(!scan.observe(ListEntry::Video { released: at(-5), wanted: false }, false));
    assert!(!scan.observe(ListEntry::Video { released: at(5), wanted: true }, true));
    assert_eq!(scan.finish().unwrap(), None);
}

#[test]
fn a_list_that_breaks_off_records_nothing() {
    let mut scan = ListScan::new(None);
    assert!(scan.observe(ListEntry::Video { released: at(5), wanted: true }, false));
    assert!(!scan.observe(ListEntry::Failed("timeout".to_string()), false));
    assert_eq!(scan.finish(), Err("timeout".to_string()));
}

fn listed(kind: usize) -> VideoInfo {
    let title = format!("t{}", kind);
    let bvid = format!("BV{}", kind);
    let upper_name = "up".to_string();
    match kind {
        0 => VideoInfo::Detail { title, bvid, upper_name },
        1 => VideoInfo::Favorite { title, bvid, upper_name },
        2 => VideoInfo::Collection { title, bvid, author_name: Some("author".to_string()) },
        3 => VideoInfo::Collection { title, bvid, author_name: None },
        4 => VideoInfo::WatchLater { title, bvid, upper_name },
        5 => VideoInfo::Submission { title, bvid },
        _ => VideoInfo::Bangumi { title, bvid, episode_number: Some(4), ep_id: "99".to_string() },
    }
}

#[test]
fn briefs_name_the_creator() {
    let names: Vec<String> = (0..7).map(|kind| brief(&listed(kind)).upper_name).collect();
    assert_eq!(names, vec!["up", "up", "author", "未知", "up", "未知", "番剧"]);
    let episode = brief(&listed(6));
    assert_eq!(episode.title, "t6");
    assert_eq!(episode.episode_number, Some(4));
    assert_eq!(episode.ep_id, Some("99".to_string()));
}

fn recorded(bvid: &str, source_type: Option<i32>, ep_id: Option<&str>) -> RecordedVideo {
    RecordedVideo {
        id: 5,
        bvid: bvid.to_string(),
        source_type,
        ep_id: ep_id.map(|id| id.to_string()),
        episode_number: Some(8),
        pubtime: at(1709210096),
    }
}

#[test]
fn new_videos_are_found_among_the_listed() {
    let infos: Vec<VideoInfo> = (0..7).map(listed).collect();
    let list = briefs(&infos);
    let videos = vec![
        recorded("BV5", None, None),
        recorded("unknown", None, None),
        recorded("BV0", Some(1), Some("99")),
        recorded("BV1", Some(1), Some("7")),
        recorded("BV1", Some(2), Some("99")),
    ];
    let news = collect_news(&list, &videos, "合集", "名");
    let titles: Vec<&str> = news.iter().map(|video| video.title.as_str()).collect();
    assert_eq!(titles, vec!["t5", "t6", "t1"]);
    assert_eq!(news[0].pubtime, Some("2024-02-29 12:34:56".to_string()));
    assert_eq!(news[0].episode_number, Some(8));
    assert_eq!(news[0].video_id, Some(5));
    assert_eq!(news[0].source_type, "合集");
    assert_eq!(news[0].source_name, "名");
    assert_eq!(news[1].episode_number, Some(4));
    assert_eq!(news[1].bvid, "BV0");
    assert_eq!(news[1].season_number, None);
}

#[test]
fn news_take_the_time_that_they_are_given() {
    let info = news_from(&brief(&listed(0)), &recorded("BV0", None, None), "a", "b", None);
    assert_eq!(info.pubtime, None);
    assert_eq!(info.upper_name, "up");
}

#[test]
fn videos_of_the_last_seconds_count_as_new() {
    assert_eq!(recent_threshold(at(1709210096)), Some("2024-02-29 20:34:46".to_string()));
    assert_eq!(recent_threshold(at(i64::MAX)), None);
}

#[test]
fn listed_videos_are_recorded_in_batches_of_ten() {
    let mut step = start_refresh();
    for held in 0..10 {
        assert_eq!(step, RefreshStep::Read { held });
        step = advance_refresh(step, RefreshReport::Entry { taken: true });
    }
    assert_eq!(step, RefreshStep::Record { count: 10, last: false });
    assert_eq!(advance_refresh(step, RefreshReport::Halted), RefreshStep::Finish);
    let step = advance_refresh(step, RefreshReport::Recorded);
    assert_eq!(step, RefreshStep::Read { held: 0 });
    let end = RefreshReport::Entry { taken: false };
    assert_eq!(advance_refresh(step, end), RefreshStep::Finish);
    let step = advance_refresh(RefreshStep::Read { held: 3 }, end);
    assert_eq!(step, RefreshStep::Record { count: 3, last: true });
    assert_eq!(advance_refresh(step, RefreshReport::Recorded), RefreshStep::Finish);
}

#[test]
fn nothing_is_reported_of_a_batch_without_new_rows() {
    let list = briefs(&vec![listed(0), listed(5)]);
    let videos = vec![recorded("BV5", None, None)];
    let mut tally = RefreshTally::new();
    assert!(!tally.count_rows(10, 10));
    tally.report(&list, &videos, "合集", "名");
    assert_eq!(tally.count(), 0);
    assert!(tally.count_rows(10, 12));
    tally.report(&list, &videos, "合集", "名");
    assert!(!tally.count_rows(12, 12));
    tally.report(&list, &videos, "合集", "名");
    let (count, news) = tally.finish();
    assert_eq!(count, 2);
    assert_eq!(news.len(), 1);
    assert_eq!(news[0].title, "t5");
    assert_eq!(news[0].video_id, Some(5));
}

#[test]
fn details_that_are_refused_abort_the_run() {
    let refused = judge_details_failure(ErrorType::RiskControl, Some(-404));
    assert_eq!(refused, DetailsReaction::Abort);
    let gone = judge_details_failure(ErrorType::Other, Some(-404));
    assert_eq!(gone, DetailsReaction::Invalidate);
    assert_eq!(judge_details_failure(ErrorType::Network, Some(-352)), DetailsReaction::Leave);
    assert_eq!(judge_details_failure(ErrorType::NotFound, None), DetailsReaction::Leave);
}

#[test]
fn a_video_for_supporters_is_locked() {
    assert!(is_locked(Some(true), Some(false)));
    assert!(!is_locked(Some(true), Some(true)));
    assert!(!is_locked(Some(true), None));
    assert!(!is_locked(None, Some(false)));
    assert_eq!(delete_task_id(-3), "auto_delete_upower_-3");
}

#[test]
fn a_locked_video_is_deleted_and_not_recorded() {
    let makers = vec![staff(1, "f1"), staff(2, "f2")];
    let locked = DetailReport::Fetched { exclusive: Some(true), playable: Some(false) };
    let step = advance_details(DetailStep::Fetch, locked, &makers, None);
    assert_eq!(step, DetailStep::Delete);
    assert_eq!(advance_details(step, DetailReport::Done, &makers, None), DetailStep::Finished);
}

#[test]
fn a_video_is_recorded_after_its_makers_were_looked_up() {
    let makers = vec![staff(1, "f1"), staff(2, "f2")];
    let fetched = DetailReport::Fetched { exclusive: None, playable: None };
    let step = advance_details(DetailStep::Fetch, fetched, &makers, None);
    assert_eq!(step, DetailStep::Search(StaffSearch::LookUp { index: 0, mid: 1 }));
    let step = advance_details(step, DetailReport::Found(None), &makers, None);
    let found = advance_details(step, DetailReport::Found(Some(2)), &makers, None);
    assert_eq!(found, DetailStep::Save { matched: true });
    let step = advance_details(step, DetailReport::Found(None), &makers, None);
    assert_eq!(step, DetailStep::Save { matched: false });
    assert_eq!(advance_details(step, DetailReport::Done, &makers, None), DetailStep::Finished);
    let alone = advance_details(DetailStep::Fetch, fetched, &Vec::new(), Some(3));
    assert_eq!(alone, DetailStep::Save { matched: false });
}

#[test]
fn a_video_without_details_is_left_invalidated_or_refused() {
    let none = Vec::new();
    let failed = |kind, request_code| {
        advance_details(DetailStep::Fetch, DetailReport::Failed { kind, request_code }, &none, None)
    };
    assert_eq!(failed(ErrorType::RiskControl, None), DetailStep::Aborted);
    assert_eq!(failed(ErrorType::Other, Some(-404)), DetailStep::Invalidate);
    assert_eq!(failed(ErrorType::Network, None), DetailStep::Finished);
    let done = DetailReport::Done;
    assert_eq!(advance_details(DetailStep::Invalidate, done, &none, None), DetailStep::Finished);
    assert_eq!(advance_details(DetailStep::Aborted, done, &none, None), DetailStep::Aborted);
}

#[test]
fn makers_are_looked_up_in_turn() {
    let makers = vec![staff(1, "f1"), staff(2, "f2")];
    let step = start_staff_search(&makers, None);
    assert_eq!(step, StaffSearch::LookUp { index: 0, mid: 1 });
    let step = advance_staff_search(&makers, step, None);
    assert_eq!(step, StaffSearch::LookUp { index: 1, mid: 2 });
    assert_eq!(advance_staff_search(&makers, step, None), StaffSearch::Unmatched);
    assert_eq!(advance_staff_search(&makers, step, Some(2)), StaffSearch::Matched);
}

#[test]
fn the_subscription_that_a_video_came_by_has_to_be_of_a_maker() {
    let makers = vec![staff(1, "f1"), staff(2, "f2")];
    let step = start_staff_search(&makers, Some(9));
    assert_eq!(step, StaffSearch::LoadSource { submission_id: 9 });
    assert_eq!(advance_staff_search(&makers, step, Some(2)), StaffSearch::Matched);
    assert_eq!(advance_staff_search(&makers, step, Some(3)), StaffSearch::Unmatched);
    assert_eq!(advance_staff_search(&makers, step, None), StaffSearch::Unmatched);
    assert_eq!(start_staff_search(&vec![staff(1, "f")], Some(9)), StaffSearch::Unmatched);
}

#[test]
fn a_joint_video_is_filed_under_its_subscription() {
    let makers = vec![staff(1, "f1"), staff(2, "f2"), staff(2, "f3")];
    let owner = owner_by_submission(&submission(5, 2), &makers);
    assert_eq!((owner.upper_id, owner.upper_name.as_str()), (2, "up2"));
    assert_eq!(owner.upper_face, "f2");
    assert_eq!(owner_by_submission(&submission(5, 4), &makers).upper_face, "");
    assert!(is_on_staff(&makers, 1));
    assert!(!is_on_staff(&makers, 4));
    assert!(is_joint(&makers));
    assert!(!is_joint(&vec![staff(1, "f1")]));
}

#[test]
fn the_last_matching_subscription_counts() {
    let makers = vec![staff(1, "f1"), staff(2, "f2")];
    let list = vec![submission(5, 1), submission(6, 2), submission(7, 3)];
    assert_eq!(last_staff_submission(&list, &makers), Some(1));
    assert_eq!(last_staff_submission(&list, &vec![staff(1, "f1")]), None);
    assert_eq!(last_staff_submission(&vec![submission(7, 3)], &makers), None);
}

#[test]
fn details_complete_the_record() {
    let makers = vec![staff(1, "f1"), staff(2, "f2")];
    let update = detail_update(&vec![11], &Some(submission(5, 1)), &makers);
    assert!(update.single_page);
    assert_eq!(update.cid, Some(11));
    assert_eq!(update.owner.unwrap().upper_face, "f1");
    let update = detail_update(&Vec::new(), &None, &makers);
    assert!(!update.single_page);
    assert_eq!(update.cid, None);
    assert!(update.owner.is_none());
}

#[test]
fn a_failed_video_among_many_is_judged() {
    let refused = failure("refused", true);
    assert_eq!(judge_fetch_failure(ErrorType::UserCancelled, &refused), FetchReaction::Return);
    assert_eq!(judge_fetch_failure(ErrorType::Other, &refused), FetchReaction::CancelAndReturn);
    let cancelled = failure("Download cancelled", false);
    assert_eq!(judge_fetch_failure(ErrorType::Other, &cancelled), FetchReaction::CancelAndReturn);
    let other = failure("x", false);
    assert_eq!(judge_fetch_failure(ErrorType::Other, &other), FetchReaction::Continue);
}

#[test]
fn videos_are_filled_in_batches_of_ten() {
    assert_eq!(fill_step(0, 0, false), FillStep::Finished);
    assert_eq!(fill_step(0, 10, false), FillStep::Batch { start: 0, end: 10, pause: false });
    assert_eq!(fill_step(0, 25, false), FillStep::Batch { start: 0, end: 10, pause: true });
    assert_eq!(fill_step(1, 25, false), FillStep::Batch { start: 10, end: 20, pause: true });
    assert_eq!(fill_step(2, 25, false), FillStep::Batch { start: 20, end: 25, pause: false });
    assert_eq!(fill_step(3, 25, true), FillStep::Finished);
    assert_eq!(fill_step(1, 25, true), FillStep::Cancelled);
    assert_eq!(first_cid(&vec![3, 4]), Some(3));
    assert_eq!(first_cid(&Vec::new()), None);
}
