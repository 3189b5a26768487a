use std::time::Duration;

use bili_sync::notification::{
    newest_first_order, sanitize_for_serverchan, NewVideoInfo, ScanSummary, SourceScanResult,
    MAX_CONTENT_LENGTH,
};
use bili_sync::push::{
    custom_test_push, deserialize_code, first_push_step, judge_reply, next_push_step, scan_push,
    serverchan_url, test_push, try_scan_push, unreadable_reply, CodeValue, NotificationConfig, PushStep, ScanPush,
};
use bili_sync::scan_message::{date_part, format_scan_message, try_format_scan_message};

fn video(title: &str, pubtime: Option<&str>) -> NewVideoInfo {
    NewVideoInfo {
        title: title.to_string(),
        bvid: format!("BV{}", title.len()),
        upper_name: "up".to_string(),
        source_type: "合集".to_string(),
        source_name: "source".to_string(),
        pubtime: pubtime.map(|time| time.to_string()),
        episode_number: None,
        season_number: None,
        video_id: None,
    }
}

fn source(kind: &str, name: &str, new_videos: Vec<NewVideoInfo>) -> SourceScanResult {
    SourceScanResult { source_type: kind.to_string(), source_name: name.to_string(), new_videos }
}

fn summary(total: usize, source_results: Vec<SourceScanResult>) -> ScanSummary {
    ScanSummary {
        total_sources: source_results.len(),
        total_new_videos: total,
        scan_duration: Duration::from_secs(90),
        source_results,
    }
}

fn config(key: Option<&str>) -> NotificationConfig {
    NotificationConfig {
        enable_scan_notifications: true,
        serverchan_key: key.map(|text| text.to_string()),
        notification_min_videos: 1,
        notification_timeout: 10,
        notification_retry_count: 3,
    }
}

#[test]
fn brackets_are_made_plain_and_rare_characters_dropped() {
    assert_eq!(sanitize_for_serverchan("「a」【b】〖c〗〔d〕"), "[a][b][c][d]");
    assert_eq!(sanitize_for_serverchan("📊 合集\u{ffff}\u{10000}!"), " 合集\u{ffff}!");
    assert_eq!(sanitize_for_serverchan(""), "");
}

#[test]
fn sanitising_twice_changes_nothing_more() {
    let once = sanitize_for_serverchan("「🎯」ok");
    assert_eq!(sanitize_for_serverchan(&once), once);
}

#[test]
fn videos_are_sorted_from_new_to_old() {
    let videos = vec![
        video("a", Some("2024-01-01 00:00:00")),
        video("b", None),
        video("c", Some("2024-03-01 00:00:00")),
        video("d", Some("2024-01-01 00:00:00")),
        video("e", Some("")),
    ];
    assert_eq!(newest_first_order(&videos), vec![2, 0, 3, 1, 4]);
}

#[test]
fn dates_end_at_the_first_space() {
    assert_eq!(date_part("2024-01-01 00:00:00"), "2024-01-01");
    assert_eq!(date_part("2024"), "2024");
    assert_eq!(date_part(" x"), "");
    assert_eq!(date_part(""), "");
}

#[test]
fn a_scan_without_news_is_summed_up() {
    let (title, body) = format_scan_message(&summary(0, vec![source("合集", "x", vec![])]), "1.5");
    assert_eq!(title, "Bili Sync 扫描完成");
    assert_eq!(
        body,
        " **扫描摘要**\n\n- 扫描视频源: 1个\n- 新增视频: 0个\n- 扫描耗时: 1.5分钟\n\n"
    );
}

#[test]
fn news_are_listed_by_source() {
    let report = summary(
        3,
        vec![
            source("收藏夹", "空", vec![]),
            source(
                "合集",
                "「系列」",
                vec![video("old", Some("2023-01-01 10:00:00")), video("new", Some("2024-01-01 10:00:00"))],
            ),
            source("UP主投稿", "up", vec![video("x", None)]),
        ],
    );
    let (_, body) = format_scan_message(&report, "0.1");
    assert_eq!(
        body,
        concat_lines(&[
            " **扫描摘要**",
            "",
            "- 扫描视频源: 3个",
            "- 新增视频: 3个",
            "- 扫描耗时: 0.1分钟",
            "",
            " **新增视频详情**",
            "",
            " **合集** - [系列] (2个新视频):",
            "- [new](https://www.bilibili.com/video/BV3) (2024-01-01)",
            "- [old](https://www.bilibili.com/video/BV3) (2023-01-01)",
            "",
            " **UP主投稿** - up (1个新视频):",
            "- [x](https://www.bilibili.com/video/BV1)",
            "",
        ])
    );
}

fn concat_lines(lines: &[&str]) -> String {
    let mut text = String::new();
    for line in lines {
        text.push_str(line);
        text.push('\n');
    }
    text
}

#[test]
fn the_symbol_of_a_source_that_is_kept_is_shown() {
    let report = summary(1, vec![source("稍后再看", "later", vec![video("x", None)])]);
    let (_, body) = format_scan_message(&report, "0.1");
    assert!(body.contains("⏰ **稍后再看** - later (1个新视频):\n"));
}

#[test]
fn a_source_lists_twenty_videos() {
    let videos = vec![video("x", None); 23];
    let (_, body) = format_scan_message(&summary(23, vec![source("合集", "s", videos)]), "0.1");
    assert_eq!(body.matches("- [x]").count(), 20);
    assert!(body.ends_with("...还有 3 个视频\n\n"));
}

#[test]
fn a_long_source_is_cut_off() {
    let title = "a".repeat(28900);
    let videos = vec![video(&title, None); 4];
    let (_, body) = format_scan_message(&summary(4, vec![source("合集", "s", videos)]), "0.1");
    assert_eq!(body.matches("- [").count(), 1);
    assert!(body.ends_with("...还有 3 个视频（内容过长已省略）\n\n"));
}

#[test]
fn later_sources_are_left_out_of_a_long_message() {
    let title = "a".repeat(29400);
    let report = summary(
        4,
        vec![
            source("合集", "a", vec![video(&title, None)]),
            source("合集", "b", vec![]),
            source("合集", "c", vec![video("x", None); 3]),
        ],
    );
    let (_, body) = format_scan_message(&report, "0.1");
    assert!(body.ends_with("\n...还有 1 个视频源的 3 个新视频（内容过长已省略）\n"));
    assert!(!body.contains("[x]"));
}

#[test]
fn a_total_below_what_is_shown_gives_no_message() {
    let title = "长".repeat(5000);
    let sources = vec![
        source("合集", "a", vec![video(&title, None); 3]),
        source("合集", "c", vec![video("x", None)]),
    ];
    assert!(try_format_scan_message(&summary(1, sources.clone()), "0.1").is_none());
    assert!(try_format_scan_message(&summary(2, sources), "0.1").is_some());
}

#[test]
fn a_message_is_cut_to_its_greatest_length() {
    let title = "a".repeat(40000);
    let report = summary(1, vec![source("合集", "s", vec![video(&title, None)])]);
    let (_, body) = format_scan_message(&report, "0.1");
    assert!(body.ends_with("a\n\n...内容过长，已截断"));
    assert_eq!(body.len(), MAX_CONTENT_LENGTH - 100 + 29);
}

#[test]
fn a_message_in_chinese_is_cut_by_its_bytes() {
    let title = "长".repeat(40000);
    let report = summary(1, vec![source("合集", "s", vec![video(&title, None)])]);
    let (_, body) = format_scan_message(&report, "0.1");
    let note = "\n\n...内容过长，已截断";
    let kept = body.strip_suffix(note).unwrap();
    assert!(kept.ends_with('长'));
    assert!(body.len() <= MAX_CONTENT_LENGTH);
    assert!(kept.len() <= MAX_CONTENT_LENGTH - 100);
    assert!(kept.len() + 3 > MAX_CONTENT_LENGTH - 100);
}

#[test]
fn a_message_that_is_cut_gets_shorter() {
    let title = "长".repeat(5000);
    let videos = vec![video(&title, None); 4];
    let (_, body) = format_scan_message(&summary(4, vec![source("合集", "s", videos)]), "0.1");
    assert!(body.len() <= MAX_CONTENT_LENGTH);
    assert!(body.ends_with("\n\n...内容过长，已截断"));
}

#[test]
fn a_message_does_not_depend_on_the_order_of_the_videos() {
    let first = video("a", Some("2024-01-01 00:00:00"));
    let second = video("bb", Some("2024-03-01 00:00:00"));
    let third = video("ccc", None);
    let one = summary(3, vec![source("合集", "s", vec![first.clone(), second.clone(), third.clone()])]);
    let other = summary(3, vec![source("合集", "s", vec![third, first, second])]);
    assert_eq!(format_scan_message(&one, "0.1"), format_scan_message(&other, "0.1"));
}

#[test]
fn a_copy_of_a_summary_reports_the_same() {
    let report = summary(
        2,
        vec![
            source("合集", "s", vec![video("a", Some("2024")), video("b", None)]),
            source("收藏夹", "t", vec![]),
        ],
    );
    let copy = report.clone();
    assert_eq!(format_scan_message(&copy, "0.1"), format_scan_message(&report, "0.1"));
    assert_eq!(copy.source_results[1].source_name, "t");
    assert_eq!(copy.source_results[0].new_videos[1].title, "b");
    assert_eq!(copy.scan_duration, report.scan_duration);
}

#[test]
fn a_message_holds_no_rare_characters() {
    let report = summary(1, vec![source("【类】", "🎬", vec![video("「🎯」", Some("📊"))])]);
    let (_, body) = format_scan_message(&report, "🧪");
    assert_eq!(sanitize_for_serverchan(&body), body);
}

#[test]
fn a_scan_is_reported_if_it_is_worth_it() {
    let report = summary(1, vec![source("合集", "s", vec![video("x", None)])]);
    let mut off = config(Some("key"));
    off.enable_scan_notifications = false;
    assert!(matches!(scan_push(&off, &report, "0.1"), ScanPush::Disabled));
    let mut picky = config(None);
    picky.notification_min_videos = 2;
    assert!(matches!(scan_push(&picky, &report, "0.1"), ScanPush::BelowThreshold));
    assert!(matches!(scan_push(&config(None), &report, "0.1"), ScanPush::NoKey));
    match scan_push(&config(Some("key")), &report, "0.1") {
        ScanPush::Send(push) => {
            assert_eq!(push.key, "key");
            assert_eq!(push.title, "Bili Sync 扫描完成");
            assert_eq!(push.content, format_scan_message(&report, "0.1").1);
        }
        other => panic!("{:?}", other),
    }
}

#[test]
fn a_summary_that_cannot_be_reported_gives_no_push() {
    let title = "长".repeat(5000);
    let sources = vec![
        source("合集", "a", vec![video(&title, None); 3]),
        source("合集", "c", vec![video("x", None)]),
    ];
    let report = summary(1, sources);
    assert!(try_scan_push(&config(Some("k")), &report, "0.1").is_none());
    assert!(matches!(try_scan_push(&config(None), &report, "0.1"), Some(ScanPush::NoKey)));
}

#[test]
fn a_failing_push_is_repeated() {
    assert_eq!(first_push_step(0), PushStep::Finished { delivered: false });
    assert_eq!(first_push_step(3), PushStep::Attempt { number: 1, delayed: false });
    assert_eq!(next_push_step(1, 3, false), PushStep::Attempt { number: 2, delayed: true });
    assert_eq!(next_push_step(3, 3, false), PushStep::Finished { delivered: false });
}

#[test]
fn a_delivered_push_is_not_repeated() {
    assert_eq!(next_push_step(1, 3, true), PushStep::Finished { delivered: true });
    assert_eq!(next_push_step(3, 3, true), PushStep::Finished { delivered: true });
}

#[test]
fn the_address_holds_the_key() {
    assert_eq!(serverchan_url("SECRET"), "https://sctapi.ftqq.com/SECRET.send");
}

#[test]
fn codes_may_be_numbers_or_strings() {
    assert_eq!(deserialize_code(&CodeValue::Integer(0)), Ok(0));
    assert_eq!(deserialize_code(&CodeValue::Integer(-2147483648)), Ok(i32::MIN));
    assert_eq!(deserialize_code(&CodeValue::Text("40001".to_string())), Ok(40001));
}

#[test]
fn other_codes_are_rejected() {
    let invalid = Err("code is not a valid i32".to_string());
    assert_eq!(deserialize_code(&CodeValue::Integer(2147483648)), invalid);
    assert_eq!(deserialize_code(&CodeValue::OtherNumber), invalid);
    assert_eq!(
        deserialize_code(&CodeValue::Text("x1".to_string())),
        Err("code string 'x1' is not a valid i32".to_string())
    );
    assert_eq!(
        deserialize_code(&CodeValue::Other),
        Err("code must be a number or string".to_string())
    );
}

#[test]
fn replies_are_judged_by_their_code() {
    assert_eq!(judge_reply(0, "ignored"), Ok(()));
    assert_eq!(judge_reply(1, "bad key"), Err("Server酱返回错误: bad key".to_string()));
    assert_eq!(unreadable_reply("eof", "{"), "解析响应失败: eof, 响应内容: {");
}

#[test]
fn a_test_message_needs_a_key() {
    assert_eq!(test_push(&config(None)).unwrap_err(), "未配置Server酱密钥");
    let push = test_push(&config(Some("k"))).unwrap();
    assert_eq!(push.title, "Bili Sync 测试推送");
    assert_eq!(
        push.content,
        "这是一条测试推送消息，如果您收到此消息，说明推送配置正确。\n\n🎉 推送功能工作正常！"
    );
}

#[test]
fn a_message_of_the_user_is_framed() {
    assert_eq!(custom_test_push(&config(None), "hi").unwrap_err(), "未配置Server酱密钥");
    let push = custom_test_push(&config(Some("k")), "hi").unwrap();
    assert_eq!(push.key, "k");
    assert_eq!(push.title, "Bili Sync 自定义测试推送");
    assert_eq!(push.content, "🧪 **自定义测试消息**\n\nhi");
}
