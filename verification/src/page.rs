//! How one page of a video is named, fetched and described.

use vstd::prelude::*;

use crate::decimal::{two_digit_text, two_digits};
use crate::entity::{PageModel, VideoModel, SOURCE_TYPE_BANGUMI};
use crate::failure::{is_damaged, says_damaged, ErrorType};
use crate::text::{contains, occurs, same_text};

verus! {

/// How the files of a page get their name.
#[derive(Debug)]
pub enum PageNaming {
    /// By this name.
    Fixed(String),
    /// By the template for pages.
    PageTemplate,
    /// By the template for videos with several pages, or by `fallback` if it cannot be filled in.
    MultiPageTemplate { fallback: String },
}

/// What decides about the name of a page.
#[derive(Debug, Clone, Copy)]
pub struct PagePlace {
    /// The video has a single page.
    pub single_page: bool,
    /// The number of the page in its video.
    pub pid: i32,
    /// The video comes from a collection.
    pub in_collection: bool,
    /// All videos of a collection share one folder.
    pub unified: bool,
    /// The place of the video in its collection, if it is known.
    pub episode: Option<i32>,
}

/// Whether all videos of a collection share one folder, by the mode that the user set.
pub fn is_unified(mode: &str) -> (answer: bool)
    ensures
        answer == (mode@ == "unified"@),
{
    same_text(mode, "unified")
}

/// The name of an episode of a collection.
pub open spec fn episode_name(place: PagePlace, episode: int, title: Seq<char>) -> Seq<char> {
    if place.single_page {
        "S01E"@ + two_digits(episode) + " - "@ + title
    } else {
        "S01E"@ + two_digits(episode) + "P"@ + two_digits(place.pid as int) + " - "@ + title
    }
}

/// The name of a page for which the template cannot be filled in.
pub open spec fn fallback_name(pid: int) -> Seq<char> {
    "S01E"@ + two_digits(pid) + "-"@ + two_digits(pid)
}

/// The ways in which the files of a page can get their name.
#[derive(Debug, Clone, Copy, PartialEq, Eq, Structural)]
pub enum NamingKind {
    Fixed,
    PageTemplate,
    MultiPageTemplate,
}

/// How the files of a page get their name.
pub open spec fn naming_kind(place: PagePlace) -> NamingKind {
    if place.in_collection && place.unified {
        if place.episode is Some {
            NamingKind::Fixed
        } else {
            NamingKind::PageTemplate
        }
    } else if place.single_page {
        NamingKind::PageTemplate
    } else {
        NamingKind::MultiPageTemplate
    }
}

/// Chooses how the files of a page get their name. `title` is the title of the video in a form
/// that can stand in a file name.
pub fn page_naming(place: PagePlace, title: &str) -> (naming: PageNaming)
    ensures
        ({
            let numbered = place.in_collection && place.unified;
            &&& naming is Fixed <==> numbered && place.episode is Some
            &&& naming is MultiPageTemplate <==> !numbered && !place.single_page
            &&& naming is PageTemplate <==> if numbered {
                place.episode is None
            } else {
                place.single_page
            }
        }),
        naming is Fixed <==> naming_kind(place) == NamingKind::Fixed,
        naming is PageTemplate <==> naming_kind(place) == NamingKind::PageTemplate,
        naming is MultiPageTemplate <==> naming_kind(place) == NamingKind::MultiPageTemplate,
        naming matches PageNaming::Fixed(name) ==> name@ == episode_name(
            place,
            place.episode->0 as int,
            title@,
        ),
        naming matches PageNaming::MultiPageTemplate { fallback } ==> fallback@ == fallback_name(
            place.pid as int,
        ),
{
    if place.in_collection && place.unified {
        match place.episode {
            Some(episode) => {
                let mut name = "S01E".to_owned();
                name.append(two_digit_text(episode).as_str());
                if !place.single_page {
                    name.append("P");
                    name.append(two_digit_text(place.pid).as_str());
                }
                name.append(" - ");
                name.append(title);
                PageNaming::Fixed(name)
            },
            None => PageNaming::PageTemplate,
        }
    } else if !place.single_page {
        let number = two_digit_text(place.pid);
        let mut fallback = "S01E".to_owned();
        fallback.append(number.as_str());
        fallback.append("-");
        fallback.append(number.as_str());
        PageNaming::MultiPageTemplate { fallback }
    } else {
        PageNaming::PageTemplate
    }
}

/// The name that the files of a page get. `rendered` is what the template gives; a template that
/// cannot be filled in is an error unless there is a name to fall back to.
pub fn page_base_name(naming: PageNaming, rendered: Result<String, String>) -> (name: Result<
    String,
    String,
>)
    ensures
        name is Err <==> naming is PageTemplate && rendered is Err,
        name matches Err(complaint) ==> rendered matches Err(cause) && complaint@
            == "模板渲染失败: "@ + cause@,
        name matches Ok(text) ==> text@ == match naming {
            PageNaming::Fixed(fixed) => fixed@,
            PageNaming::PageTemplate => rendered->Ok_0@,
            PageNaming::MultiPageTemplate { fallback } => match rendered {
                Ok(filled) => filled@,
                Err(_) => fallback@,
            },
        },
{
    match naming {
        PageNaming::Fixed(fixed) => Ok(fixed),
        PageNaming::PageTemplate => match rendered {
            Ok(filled) => Ok(filled),
            Err(cause) => Err("模板渲染失败: ".to_owned().concat(cause.as_str())),
        },
        PageNaming::MultiPageTemplate { fallback } => match rendered {
            Ok(filled) => Ok(filled),
            Err(_) => Ok(fallback),
        },
    }
}

/// The names of the files of a page.
#[derive(Debug, Clone)]
pub struct PageFiles {
    pub poster: String,
    pub video: String,
    pub nfo: String,
    pub danmaku: String,
    pub fanart: String,
    pub subtitle: String,
}

/// What follows the base name in the name of the file with the comments.
pub open spec fn danmaku_ending() -> Seq<char> {
    ".zh-CN.default.ass"@
}

/// The names of the files of a page.
pub fn page_files(base_name: &str) -> (files: PageFiles)
    ensures
        files.poster@ == base_name@ + "-thumb.jpg"@,
        files.video@ == base_name@ + ".mp4"@,
        files.nfo@ == base_name@ + ".nfo"@,
        files.danmaku@ == base_name@ + danmaku_ending(),
        files.fanart@ == base_name@ + "-fanart.jpg"@,
        files.subtitle@ == base_name@ + ".srt"@,
{
    PageFiles {
        poster: base_name.to_owned().concat("-thumb.jpg"),
        video: base_name.to_owned().concat(".mp4"),
        nfo: base_name.to_owned().concat(".nfo"),
        danmaku: danmaku_name(base_name),
        fanart: base_name.to_owned().concat("-fanart.jpg"),
        subtitle: base_name.to_owned().concat(".srt"),
    }
}

/// The name of the file with the comments that belongs to a base name.
pub fn danmaku_name(base_name: &str) -> (name: String)
    ensures
        name@ == base_name@ + danmaku_ending(),
{
    base_name.to_owned().concat(".zh-CN.default.ass")
}

/// The files of a page have names of their own.
pub proof fn page_files_are_distinct(base_name: Seq<char>)
    ensures
        ({
            let names = seq![
                base_name + "-thumb.jpg"@,
                base_name + ".mp4"@,
                base_name + ".nfo"@,
                base_name + danmaku_ending(),
                base_name + "-fanart.jpg"@,
                base_name + ".srt"@,
            ];
            forall|i: int, j: int| 0 <= i < j < 6 ==> #[trigger] names[i] != #[trigger] names[j]
        }),
{
    let endings = seq![
        "-thumb.jpg"@,
        ".mp4"@,
        ".nfo"@,
        danmaku_ending(),
        "-fanart.jpg"@,
        ".srt"@,
    ];
    let names = seq![
        base_name + "-thumb.jpg"@,
        base_name + ".mp4"@,
        base_name + ".nfo"@,
        base_name + danmaku_ending(),
        base_name + "-fanart.jpg"@,
        base_name + ".srt"@,
    ];
    reveal_strlit("-thumb.jpg");
    reveal_strlit(".mp4");
    reveal_strlit(".nfo");
    reveal_strlit(".zh-CN.default.ass");
    reveal_strlit("-fanart.jpg");
    reveal_strlit(".srt");
    assert forall|i: int, j: int| 0 <= i < j < 6 implies #[trigger] names[i]
        != #[trigger] names[j] by {
        let from = base_name.len() as int;
        assert(names[i] == base_name + endings[i]);
        assert(names[j] == base_name + endings[j]);
        assert(names[i].len() == from + endings[i].len());
        assert(names[j].len() == from + endings[j].len());
        if names[i] == names[j] {
            assert(names[i][from] == endings[i][0]);
            assert(names[j][from] == endings[j][0]);
            assert(names[i][from + 1] == endings[i][1]);
            assert(names[j][from + 1] == endings[j][1]);
        }
    }
}

/// The size of a picture.
#[derive(Debug, Clone, Copy, PartialEq, Eq, Structural)]
pub struct Dimension {
    pub width: u32,
    pub height: u32,
    pub rotate: u32,
}

/// The size of the picture of a page, which is known if its width and its height are.
pub fn page_dimension(page: &PageModel) -> (dimension: Option<Dimension>)
    ensures
        dimension is Some <==> page.width is Some && page.height is Some,
        dimension matches Some(size) ==> page.width == Some(size.width) && page.height == Some(
            size.height,
        ) && size.rotate == 0,
{
    match (page.width, page.height) {
        (Some(width), Some(height)) => Some(Dimension { width, height, rotate: 0 }),
        _ => None,
    }
}

/// The address of the poster of a page, if the number of pages is known.
pub open spec fn poster_of(video: VideoModel, page: PageModel) -> Option<Seq<char>> {
    match video.single_page {
        None => None,
        Some(single_page) => match page.image {
            Some(image) => if single_page {
                Some(video.cover@)
            } else {
                Some(image@)
            },
            None => Some(video.cover@),
        },
    }
}

/// The address of the poster of a page: its own picture if the video has several pages and this
/// one has a picture, and the cover of the video otherwise. The number of pages has to be known.
pub fn poster_url(video: &VideoModel, page: &PageModel) -> (url: Result<String, String>)
    ensures
        url is Ok <==> poster_of(*video, *page) is Some,
        url matches Ok(text) ==> poster_of(*video, *page) == Some(text@),
        url is Ok <==> video.single_page is Some,
        url matches Ok(text) ==> text@ == if video.single_page->0 || page.image is None {
            video.cover@
        } else {
            page.image->0@
        },
        url matches Err(complaint) ==> complaint@ == "single_page is null"@,
{
    match video.single_page {
        None => Err("single_page is null".to_owned()),
        Some(single_page) => {
            if single_page {
                return Ok(video.cover.clone());
            }
            match &page.image {
                Some(image) => Ok(image.clone()),
                None => Ok(video.cover.clone()),
            }
        },
    }
}

/// Where the streams of a page are asked for.
#[derive(Debug)]
pub enum StreamSource {
    /// At the interface for series, by the id of the episode.
    Series { ep_id: String },
    /// At the interface for videos, which may fall back to that for series.
    Video { ep_id: Option<String> },
}

/// The streams are asked for at the interface for series.
pub open spec fn asks_for_series(video: VideoModel) -> bool {
    video.source_type == Some(SOURCE_TYPE_BANGUMI) && video.ep_id is Some
}

/// Where the streams of a page are asked for.
pub fn stream_source(video: &VideoModel) -> (source: StreamSource)
    ensures
        source is Series <==> asks_for_series(*video),
        source is Series <==> video.source_type == Some(SOURCE_TYPE_BANGUMI) && video.ep_id is Some,
        source matches StreamSource::Series { ep_id } ==> video.ep_id == Some(ep_id),
        source matches StreamSource::Video { ep_id } ==> ep_id == video.ep_id,
{
    let in_series: bool = match video.source_type {
        Some(kind) => kind == SOURCE_TYPE_BANGUMI,
        None => false,
    };
    match &video.ep_id {
        Some(ep_id) => if in_series {
            StreamSource::Series { ep_id: ep_id.clone() }
        } else {
            StreamSource::Video { ep_id: Some(ep_id.clone()) }
        },
        None => StreamSource::Video { ep_id: None },
    }
}

/// What a failed merge of the streams is reported as: streams that are damaged are fetched again,
/// so this is said in the report. Any other failure is reported as it is.
pub fn merge_report(message: &str) -> (report: Option<String>)
    ensures
        report is Some <==> says_damaged(message@),
        report matches Some(text) ==> text@
            == "视频文件损坏，已清理临时文件，请重试下载: "@ + message@,
{
    if is_damaged(message) {
        Some("视频文件损坏，已清理临时文件，请重试下载: ".to_owned().concat(message))
    } else {
        None
    }
}

/// The number of bytes of a page whose streams were merged: that of the merged file, or the sum of
/// the two streams where it cannot be read.
pub fn merged_size(merged: Option<u64>, video_size: u64, audio_size: u64) -> (size: u64)
    requires
        video_size + audio_size <= u64::MAX,
    ensures
        size == match merged {
            Some(length) => length,
            None => (video_size + audio_size) as u64,
        },
{
    let sum: u64 = video_size + audio_size;
    match merged {
        Some(length) => length,
        None => sum,
    }
}

/// The ending of the file with the subtitles in one language.
pub fn subtitle_extension(language: &str) -> (extension: String)
    ensures
        extension@ == language@ + ".srt"@,
{
    language.to_owned().concat(".srt")
}

/// What describes a page.
#[derive(Debug, Clone, Copy, PartialEq, Eq, Structural)]
pub enum PageNfo {
    /// A film.
    Movie,
    /// An episode. Its number is its place in `collection`, if that is given and the place is
    /// known.
    Episode { collection: Option<i32> },
}

/// What describes a page.
pub open spec fn nfo_of(video: VideoModel) -> PageNfo {
    if video.single_page == Some(true) && video.collection_id is None {
        PageNfo::Movie
    } else if video.single_page == Some(false) || video.episode_number is Some {
        PageNfo::Episode { collection: None }
    } else {
        PageNfo::Episode { collection: video.collection_id }
    }
}

/// Chooses what describes a page: a film where it is all of a video that belongs to no collection,
/// and an episode otherwise. The place in the collection gives the number where none is recorded,
/// unless the page is one of several.
pub fn page_nfo(video: &VideoModel) -> (nfo: PageNfo)
    ensures
        nfo == nfo_of(*video),
        nfo is Movie <==> video.single_page == Some(true) && video.collection_id is None,
        nfo matches PageNfo::Episode { collection } ==> collection == if video.single_page == Some(
            false,
        ) || video.episode_number is Some {
            None::<i32>
        } else {
            video.collection_id
        },
{
    let (single, several): (bool, bool) = match video.single_page {
        Some(single_page) => (single_page, !single_page),
        None => (false, false),
    };
    match video.collection_id {
        None => if single {
            PageNfo::Movie
        } else {
            PageNfo::Episode { collection: None }
        },
        Some(collection) => if several || video.episode_number.is_some() {
            PageNfo::Episode { collection: None }
        } else {
            PageNfo::Episode { collection: Some(collection) }
        },
    }
}

/// How one task of a page or of a video ended.
#[derive(Debug, Clone, Copy, PartialEq, Eq, Structural)]
pub enum TaskEnd {
    Skipped,
    Succeeded,
    /// It failed in a way that does not count.
    Ignored,
    /// It failed in a way of a known kind.
    Classified(ErrorType),
    /// It failed. `risk_control` says whether the platform refused the request, `abort` whether
    /// all downloads have to stop.
    Failed { risk_control: bool, abort: bool },
    /// It failed, and its state was set.
    FixedFailed,
}

/// The end of the task for the video of a page stops all downloads.
pub open spec fn stops_downloads(video_task: TaskEnd) -> bool {
    match video_task {
        TaskEnd::Classified(kind) => kind == ErrorType::RiskControl,
        TaskEnd::Failed { risk_control, abort } => risk_control,
        _ => false,
    }
}

/// The end of the task for the pages of a video demands that all downloads stop.
pub open spec fn demands_stop(pages_task: TaskEnd) -> bool {
    pages_task matches TaskEnd::Failed { abort, .. } && abort
}

/// Whether the download of a page has to stop all downloads: the platform refused the request for
/// its video.
pub fn page_aborts(video_task: TaskEnd) -> (answer: bool)
    ensures
        answer == stops_downloads(video_task),
        answer <==> (video_task == TaskEnd::Classified(ErrorType::RiskControl) || (video_task
            matches TaskEnd::Failed { risk_control, .. } && risk_control)),
{
    match video_task {
        TaskEnd::Classified(kind) => kind == ErrorType::RiskControl,
        TaskEnd::Failed { risk_control, abort } => risk_control,
        _ => false,
    }
}

/// Whether the download of a video has to stop all downloads: its pages demand it.
pub fn video_aborts(pages_task: TaskEnd) -> (answer: bool)
    ensures
        answer == demands_stop(pages_task),
        answer <==> (pages_task matches TaskEnd::Failed { abort, .. } && abort),
{
    match pages_task {
        TaskEnd::Failed { risk_control, abort } => abort,
        _ => false,
    }
}

/// How loudly the end of a task is told.
#[derive(Debug, Clone, Copy, PartialEq, Eq, Structural)]
pub enum LogLevel {
    /// Not at all.
    Hidden,
    Debug,
    Info,
    Warn,
    Error,
}

/// How loudly a failure of a known kind is told.
pub open spec fn classified_level(kind: ErrorType) -> LogLevel {
    match kind {
        ErrorType::NotFound => LogLevel::Debug,
        ErrorType::Permission | ErrorType::UserCancelled => LogLevel::Info,
        ErrorType::Network | ErrorType::Timeout | ErrorType::RateLimit => LogLevel::Warn,
        _ => LogLevel::Error,
    }
}

/// How loudly a failure is told whose kind has yet to be found. The task of all pages of a video has
/// told of its failures already.
pub open spec fn failed_level(kind: ErrorType, is_pages_task: bool) -> LogLevel {
    match kind {
        ErrorType::NotFound => LogLevel::Debug,
        ErrorType::UserCancelled => LogLevel::Info,
        _ => if is_pages_task {
            LogLevel::Debug
        } else {
            LogLevel::Error
        },
    }
}

/// How loudly the end of a task is told. An ignored failure of a video that only its supporters may
/// watch is not told.
pub open spec fn level_of(
    end: TaskEnd,
    kind: ErrorType,
    message: Seq<char>,
    is_pages_task: bool,
) -> LogLevel {
    match end {
        TaskEnd::Skipped | TaskEnd::Succeeded => LogLevel::Debug,
        TaskEnd::Ignored => if occurs(message, "status code: 87007"@) {
            LogLevel::Hidden
        } else {
            LogLevel::Info
        },
        TaskEnd::Classified(known) => classified_level(known),
        TaskEnd::Failed { .. } | TaskEnd::FixedFailed => failed_level(kind, is_pages_task),
    }
}

/// How loudly the end of a task is told. `kind` is the kind of the failure that the task ended with,
/// and `message` its message; `is_pages_task` says whether it is the task of all pages of a video.
pub fn task_log_level(
    end: TaskEnd,
    kind: ErrorType,
    message: &str,
    is_pages_task: bool,
) -> (level: LogLevel)
    ensures
        level == level_of(end, kind, message@, is_pages_task),
{
    match end {
        TaskEnd::Skipped | TaskEnd::Succeeded => LogLevel::Debug,
        TaskEnd::Ignored => {
            if contains(message, "status code: 87007") {
                LogLevel::Hidden
            } else {
                LogLevel::Info
            }
        },
        TaskEnd::Classified(known) => {
            match known {
                ErrorType::NotFound => LogLevel::Debug,
                ErrorType::Permission | ErrorType::UserCancelled => LogLevel::Info,
                ErrorType::Network | ErrorType::Timeout | ErrorType::RateLimit => LogLevel::Warn,
                _ => LogLevel::Error,
            }
        },
        TaskEnd::Failed { .. } | TaskEnd::FixedFailed => {
            match kind {
                ErrorType::NotFound => LogLevel::Debug,
                ErrorType::UserCancelled => LogLevel::Info,
                _ => {
                    if is_pages_task {
                        LogLevel::Debug
                    } else {
                        LogLevel::Error
                    }
                },
            }
        },
    }
}

/// An episode of a collection that shares one folder is named by its place and the title of its video;
/// the page is named too exactly where the video has several.
pub proof fn episodes_are_named_by_their_place(place: PagePlace, episode: int, title: Seq<char>)
    ensures
        place.single_page ==> episode_name(place, episode, title) == "S01E"@ + two_digits(episode)
            + " - "@ + title,
        !place.single_page ==> episode_name(place, episode, title) == "S01E"@ + two_digits(episode)
            + "P"@ + two_digits(place.pid as int) + " - "@ + title,
        fallback_name(place.pid as int) == "S01E"@ + two_digits(place.pid as int) + "-"@
            + two_digits(place.pid as int),
        danmaku_ending() == ".zh-CN.default.ass"@,
{
}

/// What went well is told quietly, whatever else is known of the task.
pub proof fn success_is_told_quietly(kind: ErrorType, message: Seq<char>, is_pages_task: bool)
    ensures
        level_of(TaskEnd::Skipped, kind, message, is_pages_task) == LogLevel::Debug,
        level_of(TaskEnd::Succeeded, kind, message, is_pages_task) == LogLevel::Debug,
{
}

/// A failure that does not count is told as a note, but for the one of a video that only its
/// supporters may watch, which is not told at all.
pub proof fn ignored_failures_are_noted(kind: ErrorType, message: Seq<char>, is_pages_task: bool)
    ensures
        level_of(TaskEnd::Ignored, kind, message, is_pages_task) == LogLevel::Hidden <==> occurs(
            message,
            "status code: 87007"@,
        ),
        level_of(TaskEnd::Ignored, kind, message, is_pages_task) == LogLevel::Info <==> !occurs(
            message,
            "status code: 87007"@,
        ),
{
}

/// A failure of a known kind is told by its own kind, whatever the message or the task: what may pass
/// by itself is a warning, what the user or the platform wants is a note, a missing video is hardly
/// worth mentioning, and all else is an error.
pub proof fn known_failures_are_told_by_their_kind(
    known: ErrorType,
    kind: ErrorType,
    message: Seq<char>,
    is_pages_task: bool,
)
    ensures
        ({
            let level = level_of(TaskEnd::Classified(known), kind, message, is_pages_task);
            &&& level == LogLevel::Debug <==> known == ErrorType::NotFound
            &&& level == LogLevel::Info <==> known == ErrorType::Permission || known
                == ErrorType::UserCancelled
            &&& level == LogLevel::Warn <==> known == ErrorType::Network || known
                == ErrorType::Timeout || known == ErrorType::RateLimit
            &&& level == LogLevel::Error <==> known == ErrorType::RiskControl || known
                == ErrorType::Other
        }),
{
}

/// Any other failure is an error, unless the video is missing or the user stopped the task. The task
/// of all pages does not tell of it again. Whether the state of the task was set makes no difference.
pub proof fn other_failures_are_errors(
    kind: ErrorType,
    message: Seq<char>,
    risk_control: bool,
    abort: bool,
    is_pages_task: bool,
)
    ensures
        ({
            let level = level_of(
                TaskEnd::Failed { risk_control, abort },
                kind,
                message,
                is_pages_task,
            );
            &&& level == level_of(TaskEnd::FixedFailed, kind, message, is_pages_task)
            &&& level == LogLevel::Info <==> kind == ErrorType::UserCancelled
            &&& level == LogLevel::Debug <==> kind == ErrorType::NotFound || (is_pages_task && kind
                != ErrorType::UserCancelled)
            &&& level == LogLevel::Error <==> kind != ErrorType::NotFound && kind
                != ErrorType::UserCancelled && !is_pages_task
        }),
{
}

/// A page is described as a film exactly where it is all there is of a video outside of collections. An
/// episode takes its number from its collection only where it is not one of several pages and has no
/// number of its own; and then from that very collection.
pub proof fn films_and_episodes_are_told_apart(video: VideoModel)
    ensures
        nfo_of(video) == PageNfo::Movie <==> video.single_page == Some(true) && video.collection_id
            is None,
        (nfo_of(video) matches PageNfo::Episode { collection } && collection is Some) <==> (
        video.collection_id is Some && video.single_page != Some(false) && video.episode_number is None),
        nfo_of(video) matches PageNfo::Episode { collection } ==> (collection is Some ==> collection
            == video.collection_id),
{
}

/// A page shows its own picture exactly where it is one of several and has one; the cover of the video
/// stands for it otherwise. Without the number of pages there is no answer.
pub proof fn pages_show_their_own_picture(video: VideoModel, page: PageModel)
    ensures
        video.single_page is None <==> poster_of(video, page) is None,
        video.single_page == Some(true) ==> poster_of(video, page) == Some(video.cover@),
        video.single_page == Some(false) ==> poster_of(video, page) == match page.image {
            Some(image) => Some(image@),
            None => Some(video.cover@),
        },
{
}

/// The interface for series is asked exactly for episodes that are known by their number.
pub proof fn series_are_asked_for_episodes(video: VideoModel)
    ensures
        asks_for_series(video) <==> video.source_type == Some(1i32) && video.ep_id is Some,
{
}

/// A page of a collection that shares one folder is named by its place there, where that is known. A
/// page of several is named by the template for such pages otherwise, and any page by the common
/// template where neither is the case.
pub proof fn naming_follows_the_place(place: PagePlace)
    ensures
        naming_kind(place) == NamingKind::Fixed <==> place.in_collection && place.unified
            && place.episode is Some,
        naming_kind(place) == NamingKind::MultiPageTemplate <==> !(place.in_collection
            && place.unified) && !place.single_page,
        naming_kind(place) == NamingKind::PageTemplate <==> (place.in_collection && place.unified
            && place.episode is None) || (!(place.in_collection && place.unified)
            && place.single_page),
{
}

/// All downloads stop where the platform refused the request for a video, however that was found out;
/// no other end of a task does that to the pages. The pages of a video stop everything exactly where
/// they demand it.
pub proof fn refusals_stop_everything(kind: ErrorType, risk_control: bool, abort: bool)
    ensures
        stops_downloads(TaskEnd::Classified(kind)) <==> kind == ErrorType::RiskControl,
        stops_downloads(TaskEnd::Failed { risk_control, abort }) <==> risk_control,
        !stops_downloads(TaskEnd::Skipped),
        !stops_downloads(TaskEnd::Succeeded),
        !stops_downloads(TaskEnd::Ignored),
        !stops_downloads(TaskEnd::FixedFailed),
        demands_stop(TaskEnd::Failed { risk_control, abort }) <==> abort,
        !demands_stop(TaskEnd::Classified(kind)),
        !demands_stop(TaskEnd::Skipped),
        !demands_stop(TaskEnd::Succeeded),
        !demands_stop(TaskEnd::Ignored),
        !demands_stop(TaskEnd::FixedFailed),
{
}

}
