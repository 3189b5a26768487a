use bili_sync::clock::{is_later, Moment};
use bili_sync::entity::{PageModel, VideoModel};
use bili_sync::format_arg::{
    multi_page_args_from, page_format_args, single_page_args_from, try_page_format_args,
    try_video_format_args, video_args_from, video_format_args, ArgValue, FormatArg,
};

fn at(seconds: i64) -> Moment {
    Moment { seconds, nanos: 0 }
}

fn video(single_page: Option<bool>) -> VideoModel {
    VideoModel {
        id: 7,
        bvid: "BV1b5411h7g7".to_string(),
        name: "标题".to_string(),
        upper_id: 42,
        upper_name: "A &amp; B".to_string(),
        upper_face: "face".to_string(),
        category: 2,
        cover: "cover".to_string(),
        pubtime: at(1709210096),
        favtime: at(1704052800),
        path: "/videos".to_string(),
        single_page,
        season_id: None,
        ep_id: None,
        source_type: None,
        collection_id: None,
        episode_number: None,
        source_submission_id: None,
    }
}

fn page(width: Option<u32>) -> PageModel {
    PageModel {
        id: 1,
        video_id: 7,
        pid: 3,
        name: "分页".to_string(),
        cid: 11,
        duration: 60,
        width,
        height: Some(1080),
        image: None,
        path: None,
    }
}

fn shown(args: &[FormatArg]) -> Vec<String> {
    args.iter()
        .map(|arg| match &arg.value {
            ArgValue::Text(text) => format!("{}={}", arg.name, text),
            ArgValue::Number(number) => format!("{}#{}", arg.name, number),
        })
        .collect()
}

#[test]
fn a_video_has_seven_arguments() {
    let args = video_format_args(&video(None), "%Y-%m-%d %H:%M:%S");
    assert_eq!(
        shown(&args),
        vec![
            "bvid=BV1b5411h7g7",
            "title=标题",
            "upper_name=A & B",
            "upper_mid#42",
            "pubtime=2024-02-29 12:34:56",
            "fav_time=2023-12-31 20:00:00",
            "show_title=标题",
        ]
    );
}

#[test]
fn times_are_written_in_the_given_format() {
    let args = try_video_format_args(&video(None), "%Y-%m-%d").unwrap();
    assert_eq!(shown(&args)[4], "pubtime=2024-02-29");
    assert_eq!(shown(&args)[5], "fav_time=2023-12-31");
    let args = try_video_format_args(&video(None), "%d/%m/%y").unwrap();
    assert_eq!(shown(&args)[4], "pubtime=29/02/24");
}

#[test]
fn an_unknown_format_gives_no_arguments() {
    assert!(try_video_format_args(&video(None), "%!").is_none());
    assert!(try_page_format_args(&video(None), &page(None), "%!").is_none());
}

#[test]
fn a_time_outside_the_calendar_gives_no_arguments() {
    let mut late = video(None);
    late.pubtime = at(i64::MAX);
    assert!(try_video_format_args(&late, "%Y").is_none());
    let mut bent = video(Some(false));
    bent.favtime = Moment { seconds: 0, nanos: 2000000000 };
    assert!(try_page_format_args(&bent, &page(None), "%Y").is_none());
}

#[test]
fn a_page_of_several_has_seventeen_arguments() {
    let args = page_format_args(&video(Some(false)), &page(Some(1920)), "%Y-%m-%d");
    assert_eq!(
        shown(&args),
        vec![
            "bvid=BV1b5411h7g7",
            "title=标题",
            "upper_name=A & B",
            "upper_mid#42",
            "ptitle=分页",
            "pid#3",
            "pid_pad=03",
            "season#1",
            "season_pad=01",
            "year#2024",
            "studio=A & B",
            "category#2",
            "resolution=1920x1080",
            "pubtime=2024-02-29",
            "fav_time=2023-12-31",
            "long_title=分页",
            "show_title=分页",
        ]
    );
}

#[test]
fn an_incomplete_size_is_unknown() {
    let args = try_page_format_args(&video(Some(false)), &page(None), "%Y").unwrap();
    assert_eq!(shown(&args)[12], "resolution=Unknown");
}

#[test]
fn the_only_page_has_eleven_arguments() {
    for single in [Some(true), None] {
        let args = try_page_format_args(&video(single), &page(Some(1)), "%Y").unwrap();
        assert_eq!(
            shown(&args),
            vec![
                "bvid=BV1b5411h7g7",
                "title=标题",
                "upper_name=A & B",
                "upper_mid#42",
                "ptitle=分页",
                "pid#3",
                "pid_pad=03",
                "pubtime=2024",
                "fav_time=2023",
                "long_title=分页",
                "show_title=分页",
            ]
        );
    }
}

#[test]
fn arguments_follow_what_was_computed() {
    let args = video_args_from(&video(None), "name", "then", "now");
    assert_eq!(shown(&args)[2], "upper_name=name");
    assert_eq!(shown(&args)[4], "pubtime=then");
    let args = multi_page_args_from(&video(None), &page(None), "name", "then", "now", -5);
    assert_eq!(shown(&args)[9], "year#-5");
    let args = single_page_args_from(&video(None), &page(None), "name", "then", "now");
    assert_eq!(shown(&args)[8], "fav_time=now");
}

#[test]
fn argument_names_differ() {
    let args = page_format_args(&video(Some(false)), &page(None), "%Y");
    for (i, left) in args.iter().enumerate() {
        for right in &args[i + 1..] {
            assert_ne!(left.name, right.name);
        }
    }
}

#[test]
fn moments_are_ordered_by_seconds_and_nanoseconds() {
    assert!(is_later(at(2), at(1)));
    assert!(!is_later(at(1), at(1)));
    assert!(is_later(Moment { seconds: 1, nanos: 1 }, at(1)));
    assert!(!is_later(Moment { seconds: 0, nanos: 999999999 }, at(1)));
}

#[test]
fn the_year_changes_at_midnight() {
    let mut eve = video(Some(false));
    eve.pubtime = at(1704067199);
    let args = page_format_args(&eve, &page(None), "%Y");
    assert_eq!(shown(&args)[9], "year#2023");
    eve.pubtime = at(1704067200);
    let args = page_format_args(&eve, &page(None), "%Y");
    assert_eq!(shown(&args)[9], "year#2024");
}
