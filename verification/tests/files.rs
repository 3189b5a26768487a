use bili_sync::clock::Moment;
use bili_sync::danmaku::{
    aid_lookup, check_danmaku, invalid_page_message, plan_danmaku, DanmakuPage, DanmakuStep,
    DanmakuVideo,
};
use bili_sync::entity::{PageModel, VideoModel};
use bili_sync::failure::ErrorType;
use bili_sync::folder::{
    drop_reserved, files_show_video, is_same_video_folder, shows_video, split_at_gaps,
    split_at_white, FolderFacts,
};
use bili_sync::folder_name::{
    candidate, next_try, publication_date, random_name, NameParts, NameState, NameTry,
};
use bili_sync::layout::{
    collection_cover, collection_episode_number, is_series, known_page_count, lay_out_video,
    needs_deduplication, person_file_name, plan_video_tasks, portrait_file_name, season_folder_name, series_files, series_name,
    upper_folders, video_places, SeriesName, VideoFacts, VideoTasks, VideoTraits,
};
use bili_sync::page::{
    danmaku_name, is_unified, merge_report, merged_size, page_aborts, page_base_name, page_dimension,
    page_files, page_naming, page_nfo, poster_url, stream_source, subtitle_extension,
    task_log_level, video_aborts, LogLevel, PageNaming, PageNfo, PagePlace, StreamSource, TaskEnd,
};
use bili_sync::stream::{
    advance_stream, audio_extension, quality_note, start_stream, video_extension, QualityNote,
    StreamStep,
};
use bili_sync::task_state::{reset_records, reset_states, StateChange};

fn model() -> VideoModel {
    VideoModel {
        id: 1,
        bvid: "BV1xx".to_string(),
        name: "name".to_string(),
        upper_id: 42,
        upper_name: "up".to_string(),
        upper_face: "face".to_string(),
        category: 2,
        cover: "cover.jpg".to_string(),
        pubtime: Moment { seconds: 0, nanos: 0 },
        favtime: Moment { seconds: 0, nanos: 0 },
        path: "path".to_string(),
        single_page: Some(true),
        season_id: None,
        ep_id: None,
        source_type: None,
        collection_id: None,
        episode_number: None,
        source_submission_id: None,
    }
}

fn page_model() -> PageModel {
    PageModel {
        id: 1,
        video_id: 1,
        pid: 3,
        name: "p".to_string(),
        cid: 11,
        duration: 60,
        width: Some(1920),
        height: Some(1080),
        image: Some("page.jpg".to_string()),
        path: None,
    }
}

fn traits(single: bool, collection: bool, multi_flag: bool, collection_flag: bool) -> VideoTraits {
    VideoTraits {
        single_page: single,
        in_collection: collection,
        multi_page_as_series: multi_flag,
        collection_as_series: collection_flag,
    }
}

#[test]
fn templates_with_titles_need_deduplication() {
    assert!(needs_deduplication("{{title}}"));
    assert!(needs_deduplication("{{ptitle}}"));
    assert!(needs_deduplication("{{name}}"));
    assert!(!needs_deduplication("{{upper_name}}"));
    assert!(needs_deduplication("{{upper_name}}/{{title}}"));
    assert!(!needs_deduplication("{{upper_name}}/{{name}}"));
    assert!(!needs_deduplication("{{bvid}}"));
}

#[test]
fn series_have_a_season_folder() {
    assert_eq!(season_folder_name(), "Season 01");
    assert!(is_series(traits(false, false, true, false)));
    assert!(is_series(traits(true, true, false, true)));
    assert!(!is_series(traits(true, false, true, true)));
    assert!(!is_series(traits(false, true, false, false)));
}

#[test]
fn the_number_of_pages_has_to_be_known() {
    assert_eq!(known_page_count(Some(false)), Ok(false));
    assert_eq!(known_page_count(None), Err("single_page is null".to_string()));
}

#[test]
fn series_files_are_named_after_what_they_describe() {
    assert_eq!(series_name(traits(false, true, true, true)), SeriesName::Folder);
    assert_eq!(series_name(traits(false, true, false, true)), SeriesName::Template);
    assert_eq!(series_name(traits(true, true, false, true)), SeriesName::Collection);
    assert_eq!(series_name(traits(true, true, true, false)), SeriesName::Nothing);
    assert_eq!(series_name(traits(true, false, true, true)), SeriesName::Nothing);
    let files = series_files(traits(false, false, true, false), "x");
    assert!(files.above_season);
    assert_eq!(files.nfo, "tvshow.nfo");
    assert_eq!(files.thumb, "x-thumb.jpg");
    assert_eq!(files.fanart, "x-fanart.jpg");
    let files = series_files(traits(false, false, false, false), "x");
    assert!(!files.above_season);
    assert_eq!(files.nfo, "x.nfo");
}

#[test]
fn the_first_video_of_a_collection_describes_it() {
    let open = [true; 5];
    let series = traits(true, true, false, true);
    let all = VideoTasks { poster: true, nfo: true, upper_face: true, upper_nfo: true, pages: true };
    assert_eq!(plan_video_tasks(series, &open, Some(1), true), all);
    let later = VideoTasks { poster: false, nfo: false, ..all };
    assert_eq!(plan_video_tasks(series, &open, Some(2), true), later);
    assert_eq!(plan_video_tasks(series, &open, None, true), later);
}

#[test]
fn a_single_video_gets_no_poster_of_its_own() {
    let open = [true; 5];
    let plain = plan_video_tasks(traits(true, false, true, true), &open, None, false);
    assert_eq!(
        plain,
        VideoTasks { poster: false, nfo: false, upper_face: false, upper_nfo: false, pages: true }
    );
    let several = plan_video_tasks(traits(false, false, true, true), &open, None, true);
    assert!(several.poster && several.nfo);
}

#[test]
fn tasks_that_are_done_are_not_due() {
    let several = traits(false, false, true, false);
    let tasks = plan_video_tasks(several, &[false, true, false, true, false], None, true);
    assert_eq!(
        tasks,
        VideoTasks { poster: false, nfo: false, upper_face: false, upper_nfo: true, pages: false }
    );
    let tasks = plan_video_tasks(several, &[false, false, true, false, true], None, true);
    assert_eq!(
        tasks,
        VideoTasks { poster: false, nfo: true, upper_face: true, upper_nfo: false, pages: true }
    );
}

#[test]
fn a_collection_shows_its_recorded_cover() {
    let video = traits(true, true, false, true);
    let cover = Some("c.jpg".to_string());
    assert_eq!(collection_cover(video, Some(1), cover.clone()), cover);
    assert_eq!(collection_cover(video, Some(2), cover.clone()), None);
    assert_eq!(collection_cover(video, None, cover.clone()), None);
    assert_eq!(collection_cover(video, Some(1), Some(String::new())), None);
    assert_eq!(collection_cover(video, Some(1), None), None);
    assert_eq!(collection_cover(traits(true, false, false, true), Some(1), cover), None);
}

fn facts_of(single_page: Option<bool>, in_collection: bool) -> VideoFacts {
    VideoFacts {
        single_page,
        in_collection,
        multi_page_as_series: true,
        collection_as_series: true,
        upper_id: 42,
        title: "title".to_string(),
        root: "up/folder".to_string(),
        folder: Some("folder".to_string()),
        rendered: "rendered".to_string(),
        collection: "collection".to_string(),
        collection_cover: Some("c.jpg".to_string()),
        episode: Some(1),
        open: [true; 5],
        covers_owner: true,
    }
}

#[test]
fn a_series_of_pages_is_laid_out_by_its_folder() {
    let layout = lay_out_video(&facts_of(Some(false), false)).unwrap();
    assert!(is_series(layout.traits));
    assert_eq!(layout.files.nfo, "tvshow.nfo");
    assert_eq!(layout.files.thumb, "folder-thumb.jpg");
    assert_eq!(layout.poster_url, None);
    assert_eq!(layout.places.recorded, strings(&["up/folder"]));
    assert_eq!(layout.places.pages, strings(&["up/folder", "Season 01"]));
    assert!(layout.tasks.poster && layout.tasks.nfo);
    assert_eq!(layout.upper_folders, ("4".to_string(), "42".to_string()));
    let mut facts = facts_of(Some(false), false);
    facts.folder = None;
    assert_eq!(lay_out_video(&facts).unwrap().files.fanart, "title-fanart.jpg");
    facts.multi_page_as_series = false;
    let layout = lay_out_video(&facts).unwrap();
    assert_eq!(layout.files.nfo, "rendered.nfo");
    assert_eq!(layout.places.recorded, strings(&["up/folder"]));
    assert_eq!(layout.places.pages, strings(&["up/folder"]));
    assert!(!layout.files.above_season);
}

#[test]
fn a_collection_is_laid_out_by_its_name() {
    let layout = lay_out_video(&facts_of(Some(true), true)).unwrap();
    assert_eq!(layout.files.thumb, "collection-thumb.jpg");
    assert_eq!(layout.poster_url, Some("c.jpg".to_string()));
    let mut facts = facts_of(Some(true), true);
    facts.collection_as_series = false;
    let layout = lay_out_video(&facts).unwrap();
    assert_eq!(layout.files.thumb, "-thumb.jpg");
    assert!(!layout.tasks.poster && !layout.tasks.nfo);
}

#[test]
fn a_video_with_unknown_pages_is_not_laid_out() {
    assert_eq!(lay_out_video(&facts_of(None, false)).unwrap_err(), "single_page is null");
}

#[test]
fn the_recorded_folder_does_not_depend_on_the_settings() {
    for multi_flag in [true, false] {
        for collection_flag in [true, false] {
            let video = traits(false, true, multi_flag, collection_flag);
            let places = video_places("r", video);
            assert_eq!(places.recorded, strings(&["r"]));
            assert_eq!(places.pages.len(), if multi_flag || collection_flag { 2 } else { 1 });
        }
    }
}

#[test]
fn creators_have_a_portrait_and_a_description() {
    assert_eq!(portrait_file_name(), "folder.jpg");
    assert_eq!(person_file_name(), "person.nfo");
    assert_eq!(video_extension(), "tmp_video");
    assert_eq!(audio_extension(), "tmp_audio");
    assert!(is_unified("unified"));
    assert!(!is_unified("separate"));
}

#[test]
fn streams_that_come_apart_are_merged() {
    let mut step = start_stream(true);
    let steps = [
        StreamStep::FetchVideo,
        StreamStep::FetchAudio,
        StreamStep::Merge,
        StreamStep::DropBoth { merged: true },
        StreamStep::Succeeded,
    ];
    for expected in steps {
        assert_eq!(step, expected);
        step = advance_stream(step, true);
    }
    assert_eq!(step, StreamStep::Succeeded);
}

#[test]
fn a_failed_stream_leaves_no_temporary_file() {
    assert_eq!(advance_stream(start_stream(false), true), StreamStep::Succeeded);
    assert_eq!(advance_stream(start_stream(false), false), StreamStep::Failed);
    assert_eq!(advance_stream(StreamStep::FetchVideo, false), StreamStep::Failed);
    assert_eq!(advance_stream(StreamStep::FetchAudio, false), StreamStep::DropVideo);
    assert_eq!(advance_stream(StreamStep::DropVideo, true), StreamStep::Failed);
    let dropped = advance_stream(StreamStep::Merge, false);
    assert_eq!(dropped, StreamStep::DropBoth { merged: false });
    assert_eq!(advance_stream(dropped, true), StreamStep::Failed);
    assert_eq!(advance_stream(StreamStep::DropBoth { merged: true }, false), StreamStep::Succeeded);
}

#[test]
fn creators_are_sorted_by_their_first_digit() {
    assert_eq!(upper_folders(8047632), ("8".to_string(), "8047632".to_string()));
    assert_eq!(upper_folders(0), ("0".to_string(), "0".to_string()));
    assert_eq!(upper_folders(-5), ("-".to_string(), "-5".to_string()));
}

#[test]
fn videos_are_numbered_within_their_collection() {
    let list = vec!["BVa".to_string(), "BVb".to_string(), "BVb".to_string()];
    assert_eq!(collection_episode_number(&list, "BVa", 7), Ok(1));
    assert_eq!(collection_episode_number(&list, "BVb", 7), Ok(2));
    assert_eq!(
        collection_episode_number(&list, "BVc", 7),
        Err("视频 BVc 在合集 7 中未找到".to_string())
    );
}

fn place(single: bool, collection: bool, unified: bool, episode: Option<i32>) -> PagePlace {
    PagePlace { single_page: single, pid: 3, in_collection: collection, unified, episode }
}

#[test]
fn pages_of_a_unified_collection_are_numbered() {
    match page_naming(place(true, true, true, Some(7)), "标题") {
        PageNaming::Fixed(name) => assert_eq!(name, "S01E07 - 标题"),
        other => panic!("{:?}", other),
    }
    match page_naming(place(false, true, true, Some(107)), "t") {
        PageNaming::Fixed(name) => assert_eq!(name, "S01E107P03 - t"),
        other => panic!("{:?}", other),
    }
    let unknown = page_naming(place(false, true, true, None), "t");
    assert!(matches!(unknown, PageNaming::PageTemplate));
}

#[test]
fn other_pages_are_named_by_templates() {
    for collection in [true, false] {
        let naming = page_naming(place(true, collection, false, Some(1)), "t");
        assert!(matches!(naming, PageNaming::PageTemplate));
        match page_naming(place(false, collection, false, Some(1)), "t") {
            PageNaming::MultiPageTemplate { fallback } => assert_eq!(fallback, "S01E03-03"),
            other => panic!("{:?}", other),
        }
    }
    let alone = page_naming(place(true, false, true, Some(1)), "t");
    assert!(matches!(alone, PageNaming::PageTemplate));
}

#[test]
fn a_template_that_fails_is_an_error_unless_there_is_a_fallback() {
    let broken = || Err("bad".to_string());
    assert_eq!(
        page_base_name(PageNaming::PageTemplate, broken()),
        Err("模板渲染失败: bad".to_string())
    );
    let several = || PageNaming::MultiPageTemplate { fallback: "f".to_string() };
    assert_eq!(page_base_name(several(), broken()), Ok("f".to_string()));
    assert_eq!(page_base_name(several(), Ok("r".to_string())), Ok("r".to_string()));
    let filled = page_base_name(PageNaming::PageTemplate, Ok("r".to_string()));
    assert_eq!(filled, Ok("r".to_string()));
    let fixed = page_base_name(PageNaming::Fixed("n".to_string()), broken());
    assert_eq!(fixed, Ok("n".to_string()));
}

#[test]
fn the_files_of_a_page_share_its_name() {
    let files = page_files("b");
    assert_eq!(files.poster, "b-thumb.jpg");
    assert_eq!(files.video, "b.mp4");
    assert_eq!(files.nfo, "b.nfo");
    assert_eq!(files.danmaku, "b.zh-CN.default.ass");
    assert_eq!(files.fanart, "b-fanart.jpg");
    assert_eq!(files.subtitle, "b.srt");
    assert_eq!(danmaku_name("s"), "s.zh-CN.default.ass");
    assert_eq!(subtitle_extension("zh-CN"), "zh-CN.srt");
}

#[test]
fn the_size_of_a_page_is_known_or_not() {
    let size = page_dimension(&page_model()).unwrap();
    assert_eq!((size.width, size.height, size.rotate), (1920, 1080, 0));
    let mut flat = page_model();
    flat.height = None;
    assert!(page_dimension(&flat).is_none());
}

#[test]
fn the_poster_is_that_of_the_page_or_of_the_video() {
    let mut video = model();
    assert_eq!(poster_url(&video, &page_model()), Ok("cover.jpg".to_string()));
    video.single_page = Some(false);
    assert_eq!(poster_url(&video, &page_model()), Ok("page.jpg".to_string()));
    let mut bare = page_model();
    bare.image = None;
    assert_eq!(poster_url(&video, &bare), Ok("cover.jpg".to_string()));
    video.single_page = None;
    assert_eq!(poster_url(&video, &bare), Err("single_page is null".to_string()));
}

#[test]
fn streams_of_series_are_asked_for_by_episode() {
    let mut video = model();
    assert!(matches!(stream_source(&video), StreamSource::Video { ep_id: None }));
    video.ep_id = Some("9".to_string());
    assert!(matches!(stream_source(&video), StreamSource::Video { ep_id: Some(_) }));
    assert_eq!(aid_lookup(&video), None);
    video.source_type = Some(1);
    match stream_source(&video) {
        StreamSource::Series { ep_id } => assert_eq!(ep_id, "9"),
        other => panic!("{:?}", other),
    }
    assert_eq!(aid_lookup(&video), Some("9".to_string()));
    video.ep_id = None;
    assert!(matches!(stream_source(&video), StreamSource::Video { ep_id: None }));
    assert_eq!(aid_lookup(&video), None);
}

#[test]
fn damaged_streams_are_reported_as_such() {
    assert_eq!(
        merge_report("ffmpeg error 1"),
        Some("视频文件损坏，已清理临时文件，请重试下载: ffmpeg error 1".to_string())
    );
    assert_eq!(merge_report("disk full"), None);
    assert_eq!(merged_size(Some(5), 1, 2), 5);
    assert_eq!(merged_size(None, 1, 2), 3);
}

#[test]
fn pages_are_described_as_films_or_episodes() {
    let mut video = model();
    assert_eq!(page_nfo(&video), PageNfo::Movie);
    video.collection_id = Some(4);
    assert_eq!(page_nfo(&video), PageNfo::Episode { collection: Some(4) });
    video.episode_number = Some(2);
    assert_eq!(page_nfo(&video), PageNfo::Episode { collection: None });
    video.episode_number = None;
    video.single_page = Some(false);
    assert_eq!(page_nfo(&video), PageNfo::Episode { collection: None });
    video.single_page = None;
    assert_eq!(page_nfo(&video), PageNfo::Episode { collection: Some(4) });
    video.collection_id = None;
    assert_eq!(page_nfo(&video), PageNfo::Episode { collection: None });
}

#[test]
fn a_refused_request_stops_all_downloads() {
    assert!(page_aborts(TaskEnd::Classified(ErrorType::RiskControl)));
    assert!(!page_aborts(TaskEnd::Classified(ErrorType::Network)));
    assert!(page_aborts(TaskEnd::Failed { risk_control: true, abort: false }));
    assert!(!page_aborts(TaskEnd::Failed { risk_control: false, abort: true }));
    for end in [TaskEnd::Skipped, TaskEnd::Succeeded, TaskEnd::Ignored, TaskEnd::FixedFailed] {
        assert!(!page_aborts(end));
        assert!(!video_aborts(end));
    }
    assert!(video_aborts(TaskEnd::Failed { risk_control: false, abort: true }));
    assert!(!video_aborts(TaskEnd::Failed { risk_control: true, abort: false }));
    assert!(!video_aborts(TaskEnd::Classified(ErrorType::RiskControl)));
}

#[test]
fn comments_are_fetched_or_removed() {
    assert_eq!(plan_danmaku(false, true, false, -1), DanmakuStep::Remove);
    assert_eq!(plan_danmaku(false, false, true, 1), DanmakuStep::Skip);
    assert_eq!(plan_danmaku(true, true, true, 1), DanmakuStep::Skip);
    assert_eq!(plan_danmaku(true, false, false, 1), DanmakuStep::Skip);
    assert_eq!(plan_danmaku(true, false, true, -1), DanmakuStep::Ignore);
    assert_eq!(plan_danmaku(true, false, true, 0), DanmakuStep::Fetch);
    assert_eq!(invalid_page_message(), "CID 无效，无法下载弹幕");
}

fn danmaku_page(id: i32, present: Option<bool>) -> DanmakuPage {
    DanmakuPage { id, states: [7; 5], present }
}

#[test]
fn missing_comments_open_their_tasks() {
    let videos = vec![
        DanmakuVideo {
            id: 1,
            states: [1, 2, 3, 4, 5],
            pages: vec![
                danmaku_page(10, Some(false)),
                danmaku_page(11, Some(true)),
                danmaku_page(12, None),
                danmaku_page(13, Some(false)),
            ],
        },
        DanmakuVideo { id: 2, states: [7; 5], pages: vec![danmaku_page(20, Some(true))] },
    ];
    let work = check_danmaku(true, &videos);
    assert!(work.has_work());
    let pages: Vec<i32> = work.pages.iter().map(|change| change.id).collect();
    assert_eq!(pages, vec![10, 13]);
    assert_eq!(work.pages[0].states, [7, 7, 7, 0, 7]);
    assert_eq!(work.videos, vec![StateChange { id: 1, states: [1, 2, 3, 4, 0] }]);
    let work = check_danmaku(false, &videos);
    let pages: Vec<i32> = work.pages.iter().map(|change| change.id).collect();
    assert_eq!(pages, vec![11, 20]);
    assert_eq!(work.videos.len(), 2);
}

#[test]
fn comments_in_order_open_nothing() {
    let videos = vec![DanmakuVideo { id: 1, states: [7; 5], pages: vec![danmaku_page(1, None)] }];
    let work = check_danmaku(true, &videos);
    assert!(!work.has_work());
    assert!(work.videos.is_empty());
}

#[test]
fn unfinished_tasks_are_set_back() {
    assert_eq!(reset_states(&[1, 1, 1, 1, 1]), None);
    assert_eq!(reset_states(&[1, 2, 3, 0, 7]), Some([1, 0, 0, 0, 7]));
    assert_eq!(reset_states(&[7, 7, 7, 7, 1]), None);
    assert_eq!(reset_states(&[0, 1, 1, 1, 1]), Some([0, 1, 1, 1, 1]));
}

#[test]
fn only_records_with_unfinished_tasks_change() {
    let records = vec![
        StateChange { id: 1, states: [1; 5] },
        StateChange { id: 2, states: [3, 1, 1, 1, 1] },
        StateChange { id: 3, states: [4; 5] },
        StateChange { id: 4, states: [2; 5] },
    ];
    assert_eq!(
        reset_records(&records),
        vec![
            StateChange { id: 2, states: [0, 1, 1, 1, 1] },
            StateChange { id: 4, states: [0; 5] },
        ]
    );
}

fn strings(texts: &[&str]) -> Vec<String> {
    texts.iter().map(|text| text.to_string()).collect()
}

#[test]
fn texts_are_split_into_words() {
    assert_eq!(split_at_white("  a b\u{3000}c\td "), strings(&["a", "b", "c", "d"]));
    assert_eq!(split_at_white("   "), Vec::<String>::new());
    for c in (0..0x110000).filter_map(char::from_u32).filter(|c| c.is_whitespace()) {
        assert_eq!(split_at_white(&format!("a{}b", c)), strings(&["a", "b"]));
    }
    let gaps = vec![false, true, true, false];
    assert_eq!(split_at_gaps(&vec!['x', ' ', '-', 'y'], &gaps), strings(&["x", "y"]));
}

#[test]
fn reserved_characters_are_left_out() {
    assert_eq!(drop_reserved("a/b\\c:d*e?f\"g<h>i|j"), "abcdefghij");
}

#[test]
fn files_are_known_by_id_or_title() {
    let words = strings(&["rust", "ab", "教程", "later"]);
    assert!(shows_video("x-bv1.jpg", "bv1", "t", &Vec::new()));
    assert!(!shows_video("x-bv1.txt", "bv1", "t", &Vec::new()));
    assert!(shows_video("my rust.mp4", "bv1", "rust ab", &words));
    assert!(!shows_video("my rust.jpg", "bv1", "rust ab", &words));
    assert!(!shows_video("ab.mp4", "bv1", "rust ab", &words));
    assert!(shows_video("教程.nfo", "bv1", "rust ab", &words));
    assert!(!shows_video("later.mp4", "bv1", "rust ab", &words));
    assert!(!shows_video("abc.mp4", "bv1", "abc", &strings(&["abc"])));
    assert!(files_show_video(&strings(&["a.txt", "bv1.srt"]), "bv1", "", &Vec::new()));
    assert!(!files_show_video(&strings(&["a.txt"]), "bv1", "", &Vec::new()));
}

fn facts(files: Option<Vec<String>>) -> FolderFacts {
    FolderFacts {
        present: true,
        folder_parts: Some(strings(&["/", "a", "b"])),
        path_parts: strings(&["/", "a", "c"]),
        folder_text: "/a/b".to_string(),
        path_text: "/a/c".to_string(),
        folder_name: Some("b".to_string()),
        path_name: Some("c".to_string()),
        files,
    }
}

#[test]
fn folders_are_known_by_their_path() {
    assert!(!is_same_video_folder(&facts(None), "BV1", "title"));
    let same_path = FolderFacts { path_parts: strings(&["/", "a", "b"]), ..facts(None) };
    assert!(is_same_video_folder(&same_path, "BV1", "t"));
    let longer = FolderFacts { path_parts: strings(&["/", "a", "b", "c"]), ..facts(None) };
    assert!(!is_same_video_folder(&longer, "BV1", "t"));
    let same_name = FolderFacts { path_name: Some("b".to_string()), ..facts(None) };
    assert!(is_same_video_folder(&same_name, "BV1", "t"));
    let nameless = FolderFacts { folder_name: None, path_name: None, folder_parts: None, ..facts(None) };
    assert!(!is_same_video_folder(&nameless, "BV1", "t"));
    let slashes = FolderFacts { path_text: "\\a\\b".to_string(), ..facts(None) };
    assert!(is_same_video_folder(&slashes, "BV1", "t"));
    let gone = FolderFacts { present: false, ..same_path };
    assert!(!is_same_video_folder(&gone, "BV1", "t"));
}

#[test]
fn folders_are_known_by_their_files() {
    let by_id = facts(Some(strings(&["X-bV1Xy.MP4"])));
    assert!(is_same_video_folder(&by_id, "BV1xY", "t"));
    assert!(!is_same_video_folder(&by_id, "BV2", "t"));
    let by_title = facts(Some(strings(&["README", "LEARN it.MKV"])));
    assert!(is_same_video_folder(&by_title, "BV2", "To \"Learn\" Rust"));
    assert!(!is_same_video_folder(&by_title, "BV2", "Something else here"));
}

fn parts() -> NameParts {
    NameParts {
        base: "base".to_string(),
        date: "2024-02-29".to_string(),
        bvid: "BV1".to_string(),
    }
}

#[test]
fn names_are_tried_in_turn() {
    assert_eq!(candidate(&parts(), NameTry::Base, 0), "base");
    assert_eq!(candidate(&parts(), NameTry::WithDate, 0), "base-2024-02-29");
    assert_eq!(candidate(&parts(), NameTry::WithBvid, 0), "base-BV1");
    assert_eq!(candidate(&parts(), NameTry::WithNumber(12), 0), "base-12");
    assert_eq!(candidate(&parts(), NameTry::Random, 90001), "base-10001");
    assert_eq!(next_try(NameTry::Base, NameState::Taken), Some(NameTry::WithDate));
    assert_eq!(next_try(NameTry::WithDate, NameState::Own), Some(NameTry::WithBvid));
    assert_eq!(next_try(NameTry::WithBvid, NameState::Taken), Some(NameTry::WithNumber(1)));
    let next = next_try(NameTry::WithNumber(1000), NameState::Taken);
    assert_eq!(next, Some(NameTry::WithNumber(1001)));
    let next = next_try(NameTry::WithNumber(1001), NameState::Taken);
    assert_eq!(next, Some(NameTry::Random));
}

#[test]
fn names_hold_the_date_of_publication() {
    let date = publication_date(Moment { seconds: 1709210096, nanos: 0 }).unwrap();
    assert_eq!(date, "2024-02-29");
    let whole = NameParts { base: "base".to_string(), date, bvid: "BV1".to_string() };
    assert_eq!(candidate(&whole, NameTry::WithDate, 0), "base-2024-02-29");
    assert!(publication_date(Moment { seconds: i64::MIN, nanos: 0 }).is_none());
}

#[test]
fn a_free_name_is_chosen() {
    assert_eq!(next_try(NameTry::Base, NameState::Free), None);
    assert_eq!(next_try(NameTry::Base, NameState::Own), None);
    assert_eq!(next_try(NameTry::WithNumber(3), NameState::Free), None);
    assert_eq!(next_try(NameTry::Random, NameState::Taken), None);
}

#[test]
fn random_names_have_five_digits() {
    for _ in 0..20 {
        let name = random_name(&parts());
        let number: u32 = name.strip_prefix("base-").unwrap().parse().unwrap();
        assert!((10000..=99999).contains(&number));
    }
}

#[test]
fn random_numbers_vary() {
    let first = random_name(&parts());
    assert!((0..50).any(|_| random_name(&parts()) != first));
}

#[test]
fn tasks_that_did_not_fail_are_told_quietly() {
    assert_eq!(task_log_level(TaskEnd::Skipped, ErrorType::Other, "", false), LogLevel::Debug);
    assert_eq!(task_log_level(TaskEnd::Succeeded, ErrorType::Network, "x", true), LogLevel::Debug);
    assert_eq!(task_log_level(TaskEnd::Ignored, ErrorType::Other, "common", false), LogLevel::Info);
    let message = "request failed, status code: 87007, message: no";
    assert_eq!(task_log_level(TaskEnd::Ignored, ErrorType::Other, message, false), LogLevel::Hidden);
}

#[test]
fn failures_of_a_known_kind_are_told_by_it() {
    let level = |kind| task_log_level(TaskEnd::Classified(kind), ErrorType::Other, "", true);
    assert_eq!(level(ErrorType::NotFound), LogLevel::Debug);
    assert_eq!(level(ErrorType::Permission), LogLevel::Info);
    assert_eq!(level(ErrorType::UserCancelled), LogLevel::Info);
    assert_eq!(level(ErrorType::Network), LogLevel::Warn);
    assert_eq!(level(ErrorType::Timeout), LogLevel::Warn);
    assert_eq!(level(ErrorType::RateLimit), LogLevel::Warn);
    assert_eq!(level(ErrorType::RiskControl), LogLevel::Error);
    assert_eq!(level(ErrorType::Other), LogLevel::Error);
}

#[test]
fn other_failures_are_errors_unless_the_pages_told_of_them() {
    let failed = TaskEnd::Failed { risk_control: false, abort: false };
    for end in [failed, TaskEnd::FixedFailed] {
        assert_eq!(task_log_level(end, ErrorType::NotFound, "", false), LogLevel::Debug);
        assert_eq!(task_log_level(end, ErrorType::UserCancelled, "", true), LogLevel::Info);
        assert_eq!(task_log_level(end, ErrorType::Network, "", false), LogLevel::Error);
        assert_eq!(task_log_level(end, ErrorType::Permission, "", false), LogLevel::Error);
        assert_eq!(task_log_level(end, ErrorType::Other, "status code: 87007", false), LogLevel::Error);
        assert_eq!(task_log_level(end, ErrorType::RiskControl, "", true), LogLevel::Debug);
    }
}

#[test]
fn a_worse_quality_is_told() {
    assert_eq!(quality_note(80, 80), QualityNote::Silent);
    assert_eq!(quality_note(64, 80), QualityNote::Silent);
    assert_eq!(quality_note(120, 116), QualityNote::Silent);
    assert_eq!(quality_note(127, 16), QualityNote::Silent);
    assert_eq!(quality_note(127, 120), QualityNote::Inform);
    assert_eq!(quality_note(80, 64), QualityNote::Inform);
    assert_eq!(quality_note(80, 41), QualityNote::Inform);
    assert_eq!(quality_note(80, 40), QualityNote::Warn);
    assert_eq!(quality_note(116, 64), QualityNote::Warn);
    assert_eq!(quality_note(160, 120), QualityNote::Warn);
}
