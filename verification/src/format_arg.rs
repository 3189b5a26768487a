//! The values that file name templates can refer to.

use vstd::prelude::*;

use crate::clock::{format_utc, in_year, utc_text, year_of, year_is_unique};
use crate::decimal::{decimal, decimal_text, two_digit_text, two_digits};
use crate::entity::{PageModel, VideoModel};

verus! {

/// A value that a template can show.
#[derive(Debug, Clone)]
pub enum ArgValue {
    Text(String),
    Number(i64),
}

/// A value under the name by which a template refers to it.
#[derive(Debug, Clone)]
pub struct FormatArg {
    pub name: &'static str,
    pub value: ArgValue,
}

/// What a template argument says.
pub enum ArgView {
    Text { name: Seq<char>, text: Seq<char> },
    Number { name: Seq<char>, number: int },
}

impl View for FormatArg {
    type V = ArgView;

    open spec fn view(&self) -> ArgView {
        match self.value {
            ArgValue::Text(text) => ArgView::Text { name: self.name@, text: text@ },
            ArgValue::Number(number) => ArgView::Number { name: self.name@, number: number as int },
        }
    }
}

impl ArgView {
    /// The name of the argument.
    pub open spec fn arg_name(self) -> Seq<char> {
        match self {
            ArgView::Text { name, text } => name,
            ArgView::Number { name, number } => name,
        }
    }
}

/// What a list of template arguments says.
pub open spec fn args_view(args: Seq<FormatArg>) -> Seq<ArgView> {
    args.map_values(|arg: FormatArg| arg@)
}

/// A textual argument.
pub open spec fn text_view(name: Seq<char>, text: Seq<char>) -> ArgView {
    ArgView::Text { name, text }
}

/// A numeric argument.
pub open spec fn number_view(name: Seq<char>, number: int) -> ArgView {
    ArgView::Number { name, number }
}

/// What `html_escape::decode_html_entities` makes of a text.
pub uninterp spec fn html_decoded(text: Seq<char>) -> Seq<char>;

/// Calls `html_escape::decode_html_entities`: the text with its HTML character references turned
/// into the characters that they stand for. The result is a function of the text.
#[verifier::external_body]
pub(crate) fn decode_html(text: &str) -> (decoded: String)
    ensures
        decoded@ == html_decoded(text@),
{
    html_escape::decode_html_entities(text).to_string()
}

/// The arguments of a video template, given the decoded name of the creator and the two times.
pub open spec fn video_args(
    video: VideoModel,
    upper_name: Seq<char>,
    pubtime: Seq<char>,
    favtime: Seq<char>,
) -> Seq<ArgView> {
    seq![
        text_view("bvid"@, video.bvid@),
        text_view("title"@, video.name@),
        text_view("upper_name"@, upper_name),
        number_view("upper_mid"@, video.upper_id as int),
        text_view("pubtime"@, pubtime),
        text_view("fav_time"@, favtime),
        text_view("show_title"@, video.name@),
    ]
}

/// The picture size of a page as text.
pub open spec fn resolution(page: PageModel) -> Seq<char> {
    match (page.width, page.height) {
        (Some(width), Some(height)) => decimal(width as nat) + "x"@ + decimal(height as nat),
        _ => "Unknown"@,
    }
}

/// The arguments of a page template for a page of a video that has several, given the decoded
/// name of the creator, the two times and the year of publication.
pub open spec fn multi_page_args(
    video: VideoModel,
    page: PageModel,
    upper_name: Seq<char>,
    pubtime: Seq<char>,
    favtime: Seq<char>,
    year: int,
) -> Seq<ArgView> {
    seq![
        text_view("bvid"@, video.bvid@),
        text_view("title"@, video.name@),
        text_view("upper_name"@, upper_name),
        number_view("upper_mid"@, video.upper_id as int),
        text_view("ptitle"@, page.name@),
        number_view("pid"@, page.pid as int),
        text_view("pid_pad"@, two_digits(page.pid as int)),
        number_view("season"@, 1),
        text_view("season_pad"@, two_digits(1)),
        number_view("year"@, year),
        text_view("studio"@, upper_name),
        number_view("category"@, video.category as int),
        text_view("resolution"@, resolution(page)),
        text_view("pubtime"@, pubtime),
        text_view("fav_time"@, favtime),
        text_view("long_title"@, page.name@),
        text_view("show_title"@, page.name@),
    ]
}

/// The arguments of a page template for the only page of a video, given the decoded name of the
/// creator and the two times.
pub open spec fn single_page_args(
    video: VideoModel,
    page: PageModel,
    upper_name: Seq<char>,
    pubtime: Seq<char>,
    favtime: Seq<char>,
) -> Seq<ArgView> {
    seq![
        text_view("bvid"@, video.bvid@),
        text_view("title"@, video.name@),
        text_view("upper_name"@, upper_name),
        number_view("upper_mid"@, video.upper_id as int),
        text_view("ptitle"@, page.name@),
        number_view("pid"@, page.pid as int),
        text_view("pid_pad"@, two_digits(page.pid as int)),
        text_view("pubtime"@, pubtime),
        text_view("fav_time"@, favtime),
        text_view("long_title"@, page.name@),
        text_view("show_title"@, page.name@),
    ]
}

/// The video is taken to have a single page unless it is recorded to have several.
pub open spec fn counts_as_single_page(video: VideoModel) -> bool {
    match video.single_page {
        Some(single) => single,
        None => true,
    }
}

/// The arguments are those of a page template for this page. The year among those of a page of
/// several is the one in which the video was published.
pub open spec fn are_page_args(
    args: Seq<ArgView>,
    video: VideoModel,
    page: PageModel,
    time_format: Seq<char>,
) -> bool {
    let upper_name = html_decoded(video.upper_name@);
    let pubtime = utc_text(video.pubtime, time_format)->0;
    let favtime = utc_text(video.favtime, time_format)->0;
    if counts_as_single_page(video) {
        args == single_page_args(video, page, upper_name, pubtime, favtime)
    } else {
        exists|year: int|
            in_year(video.pubtime, year) && args == #[trigger] multi_page_args(
                video,
                page,
                upper_name,
                pubtime,
                favtime,
                year,
            )
    }
}

/// Both times of the video can be written in the format.
pub open spec fn times_can_be_written(video: VideoModel, time_format: Seq<char>) -> bool {
    &&& utc_text(video.pubtime, time_format) is Some
    &&& utc_text(video.favtime, time_format) is Some
}

fn text_arg(name: &'static str, text: &str) -> (arg: FormatArg)
    ensures
        arg@ == text_view(name@, text@),
{
    FormatArg { name, value: ArgValue::Text(text.to_owned()) }
}

fn number_arg(name: &'static str, number: i64) -> (arg: FormatArg)
    ensures
        arg@ == number_view(name@, number as int),
{
    FormatArg { name, value: ArgValue::Number(number) }
}

/// The arguments of a video template from what the outside computations gave.
pub fn video_args_from(
    video: &VideoModel,
    upper_name: &str,
    pubtime: &str,
    favtime: &str,
) -> (args: Vec<FormatArg>)
    ensures
        args_view(args@) == video_args(*video, upper_name@, pubtime@, favtime@),
{
    let mut args: Vec<FormatArg> = Vec::new();
    args.push(text_arg("bvid", video.bvid.as_str()));
    args.push(text_arg("title", video.name.as_str()));
    args.push(text_arg("upper_name", upper_name));
    args.push(number_arg("upper_mid", video.upper_id));
    args.push(text_arg("pubtime", pubtime));
    args.push(text_arg("fav_time", favtime));
    args.push(text_arg("show_title", video.name.as_str()));
    assert(args_view(args@) =~= video_args(*video, upper_name@, pubtime@, favtime@));
    args
}

fn resolution_text(page: &PageModel) -> (text: String)
    ensures
        text@ == resolution(*page),
{
    match (page.width, page.height) {
        (Some(width), Some(height)) => {
            let mut text = decimal_text(width as u64);
            text.append("x");
            text.append(decimal_text(height as u64).as_str());
            text
        },
        _ => "Unknown".to_owned(),
    }
}

/// The arguments of a template for a page of a video that has several, from what the outside
/// computations gave.
pub fn multi_page_args_from(
    video: &VideoModel,
    page: &PageModel,
    upper_name: &str,
    pubtime: &str,
    favtime: &str,
    year: i32,
) -> (args: Vec<FormatArg>)
    ensures
        args_view(args@) == multi_page_args(
            *video,
            *page,
            upper_name@,
            pubtime@,
            favtime@,
            year as int,
        ),
{
    let mut args: Vec<FormatArg> = Vec::new();
    args.push(text_arg("bvid", video.bvid.as_str()));
    args.push(text_arg("title", video.name.as_str()));
    args.push(text_arg("upper_name", upper_name));
    args.push(number_arg("upper_mid", video.upper_id));
    args.push(text_arg("ptitle", page.name.as_str()));
    args.push(number_arg("pid", page.pid as i64));
    args.push(text_arg("pid_pad", two_digit_text(page.pid).as_str()));
    args.push(number_arg("season", 1));
    args.push(text_arg("season_pad", two_digit_text(1).as_str()));
    args.push(number_arg("year", year as i64));
    args.push(text_arg("studio", upper_name));
    args.push(number_arg("category", video.category as i64));
    args.push(text_arg("resolution", resolution_text(page).as_str()));
    args.push(text_arg("pubtime", pubtime));
    args.push(text_arg("fav_time", favtime));
    args.push(text_arg("long_title", page.name.as_str()));
    args.push(text_arg("show_title", page.name.as_str()));
    assert(args_view(args@) =~= multi_page_args(
        *video,
        *page,
        upper_name@,
        pubtime@,
        favtime@,
        year as int,
    ));
    args
}

/// The arguments of a template for the only page of a video, from what the outside computations
/// gave.
pub fn single_page_args_from(
    video: &VideoModel,
    page: &PageModel,
    upper_name: &str,
    pubtime: &str,
    favtime: &str,
) -> (args: Vec<FormatArg>)
    ensures
        args_view(args@) == single_page_args(*video, *page, upper_name@, pubtime@, favtime@),
{
    let mut args: Vec<FormatArg> = Vec::new();
    args.push(text_arg("bvid", video.bvid.as_str()));
    args.push(text_arg("title", video.name.as_str()));
    args.push(text_arg("upper_name", upper_name));
    args.push(number_arg("upper_mid", video.upper_id));
    args.push(text_arg("ptitle", page.name.as_str()));
    args.push(number_arg("pid", page.pid as i64));
    args.push(text_arg("pid_pad", two_digit_text(page.pid).as_str()));
    args.push(text_arg("pubtime", pubtime));
    args.push(text_arg("fav_time", favtime));
    args.push(text_arg("long_title", page.name.as_str()));
    args.push(text_arg("show_title", page.name.as_str()));
    assert(args_view(args@) =~= single_page_args(
        *video,
        *page,
        upper_name@,
        pubtime@,
        favtime@,
    ));
    args
}

/// The arguments of a video template.
///
/// The name of the creator is decoded from HTML; both times are written in UTC.
pub fn video_format_args(video: &VideoModel, time_format: &str) -> (args: Vec<FormatArg>)
    requires
        times_can_be_written(*video, time_format@),
    ensures
        args_view(args@) == video_args(
            *video,
            html_decoded(video.upper_name@),
            utc_text(video.pubtime, time_format@)->0,
            utc_text(video.favtime, time_format@)->0,
        ),
{
    let upper_name = decode_html(video.upper_name.as_str());
    let pubtime = format_utc(video.pubtime, time_format).unwrap();
    let favtime = format_utc(video.favtime, time_format).unwrap();
    video_args_from(video, upper_name.as_str(), pubtime.as_str(), favtime.as_str())
}

/// The arguments of a video template, or `None` where a time cannot be written in the format.
pub fn try_video_format_args(video: &VideoModel, time_format: &str) -> (args: Option<
    Vec<FormatArg>,
>)
    ensures
        args is Some <==> times_can_be_written(*video, time_format@),
        args matches Some(list) ==> args_view(list@) == video_args(
            *video,
            html_decoded(video.upper_name@),
            utc_text(video.pubtime, time_format@)->0,
            utc_text(video.favtime, time_format@)->0,
        ),
{
    if format_utc(video.pubtime, time_format).is_none() || format_utc(
        video.favtime,
        time_format,
    ).is_none() {
        return None;
    }
    Some(video_format_args(video, time_format))
}

/// The arguments of a page template.
///
/// A page of a video with several pages also gets a season, the year of publication, the studio,
/// the category and the picture size.
pub fn page_format_args(video: &VideoModel, page: &PageModel, time_format: &str) -> (args: Vec<
    FormatArg,
>)
    requires
        times_can_be_written(*video, time_format@),
    ensures
        are_page_args(args_view(args@), *video, *page, time_format@),
{
    let upper_name = decode_html(video.upper_name.as_str());
    let pubtime = format_utc(video.pubtime, time_format).unwrap();
    let favtime = format_utc(video.favtime, time_format).unwrap();
    if video.single_page.unwrap_or(true) {
        single_page_args_from(
            video,
            page,
            upper_name.as_str(),
            pubtime.as_str(),
            favtime.as_str(),
        )
    } else {
        let year: i32 = year_of(video.pubtime).unwrap();
        let args = multi_page_args_from(
            video,
            page,
            upper_name.as_str(),
            pubtime.as_str(),
            favtime.as_str(),
            year,
        );
        assert(in_year(video.pubtime, year as int));
        assert(args_view(args@) == multi_page_args(
            *video,
            *page,
            html_decoded(video.upper_name@),
            utc_text(video.pubtime, time_format@)->0,
            utc_text(video.favtime, time_format@)->0,
            year as int,
        ));
        args
    }
}

/// The arguments of a page template, or `None` where a time cannot be written in the format.
pub fn try_page_format_args(video: &VideoModel, page: &PageModel, time_format: &str) -> (args:
    Option<Vec<FormatArg>>)
    ensures
        args is Some <==> times_can_be_written(*video, time_format@),
        args matches Some(list) ==> are_page_args(args_view(list@), *video, *page, time_format@),
{
    if format_utc(video.pubtime, time_format).is_none() || format_utc(
        video.favtime,
        time_format,
    ).is_none() {
        return None;
    }
    Some(page_format_args(video, page, time_format))
}

/// The names of the arguments, in order.
pub open spec fn arg_names(args: Seq<ArgView>) -> Seq<Seq<char>> {
    args.map_values(|arg: ArgView| arg.arg_name())
}

/// A template can refer to every argument: no two arguments have the same name.
pub proof fn arg_names_are_distinct(
    video: VideoModel,
    page: PageModel,
    upper_name: Seq<char>,
    pubtime: Seq<char>,
    favtime: Seq<char>,
    year: int,
)
    ensures
        arg_names(video_args(video, upper_name, pubtime, favtime)).no_duplicates(),
        arg_names(
            single_page_args(video, page, upper_name, pubtime, favtime),
        ).no_duplicates(),
        arg_names(
            multi_page_args(video, page, upper_name, pubtime, favtime, year),
        ).no_duplicates(),
{
    reveal_strlit("bvid");
    reveal_strlit("title");
    reveal_strlit("upper_name");
    reveal_strlit("upper_mid");
    reveal_strlit("ptitle");
    reveal_strlit("pid");
    reveal_strlit("pid_pad");
    reveal_strlit("season");
    reveal_strlit("season_pad");
    reveal_strlit("year");
    reveal_strlit("studio");
    reveal_strlit("category");
    reveal_strlit("resolution");
    reveal_strlit("pubtime");
    reveal_strlit("fav_time");
    reveal_strlit("long_title");
    reveal_strlit("show_title");
    let of_video = arg_names(video_args(video, upper_name, pubtime, favtime));
    assert forall|i: int, j: int| 0 <= i < j < of_video.len() implies of_video[i] != of_video[j] by {
        if of_video[i] == of_video[j] {
            assert(of_video[i].len() == of_video[j].len());
            assert(of_video[i][0] == of_video[j][0]);
            assert(of_video[i][1] == of_video[j][1]);
            assert(of_video[i][2] == of_video[j][2]);
        }
    }
    let of_single = arg_names(single_page_args(video, page, upper_name, pubtime, favtime));
    assert forall|i: int, j: int| 0 <= i < j < of_single.len() implies of_single[i] != of_single[j] by {
        if of_single[i] == of_single[j] {
            assert(of_single[i].len() == of_single[j].len());
            assert(of_single[i][0] == of_single[j][0]);
            assert(of_single[i][1] == of_single[j][1]);
            assert(of_single[i][2] == of_single[j][2]);
        }
    }
    let of_several = arg_names(multi_page_args(video, page, upper_name, pubtime, favtime, year));
    assert forall|i: int, j: int| 0 <= i < j < of_several.len() implies of_several[i] != of_several[j] by {
        if of_several[i] == of_several[j] {
            assert(of_several[i].len() == of_several[j].len());
            assert(of_several[i][0] == of_several[j][0]);
            assert(of_several[i][1] == of_several[j][1]);
            assert(of_several[i][2] == of_several[j][2]);
        }
    }
}

/// The argument of this name is this text.
pub open spec fn shows_text(args: Seq<ArgView>, name: Seq<char>, text: Seq<char>) -> bool {
    args.contains(ArgView::Text { name, text })
}

/// The argument of this name is this number.
pub open spec fn shows_number(args: Seq<ArgView>, name: Seq<char>, number: int) -> bool {
    args.contains(ArgView::Number { name, number })
}

/// A template for videos can show the number, the title and the creator of the video, and the times of
/// its publication and of its recording, each under its own name. The title stands for the show too.
pub proof fn video_template_shows_the_video(
    video: VideoModel,
    upper_name: Seq<char>,
    pubtime: Seq<char>,
    favtime: Seq<char>,
)
    ensures
        ({
            let args = video_args(video, upper_name, pubtime, favtime);
            &&& shows_text(args, "bvid"@, video.bvid@)
            &&& shows_text(args, "title"@, video.name@)
            &&& shows_text(args, "upper_name"@, upper_name)
            &&& shows_number(args, "upper_mid"@, video.upper_id as int)
            &&& shows_text(args, "pubtime"@, pubtime)
            &&& shows_text(args, "fav_time"@, favtime)
            &&& shows_text(args, "show_title"@, video.name@)
        }),
{
    let args = video_args(video, upper_name, pubtime, favtime);
    assert(args[0] == text_view("bvid"@, video.bvid@));
    assert(args[1] == text_view("title"@, video.name@));
    assert(args[2] == text_view("upper_name"@, upper_name));
    assert(args[3] == number_view("upper_mid"@, video.upper_id as int));
    assert(args[4] == text_view("pubtime"@, pubtime));
    assert(args[5] == text_view("fav_time"@, favtime));
    assert(args[6] == text_view("show_title"@, video.name@));
}

/// A template for pages shows the video by the same names as one for videos, and the page beside it.
/// The title of the page stands for the show. The name of the creator is decoded, and both times are
/// written in the format that was set, in UTC.
pub proof fn page_template_shows_the_page(
    args: Seq<ArgView>,
    video: VideoModel,
    page: PageModel,
    time_format: Seq<char>,
)
    requires
        are_page_args(args, video, page, time_format),
    ensures
        shows_text(args, "bvid"@, video.bvid@),
        shows_text(args, "title"@, video.name@),
        shows_text(args, "upper_name"@, html_decoded(video.upper_name@)),
        shows_number(args, "upper_mid"@, video.upper_id as int),
        shows_text(args, "ptitle"@, page.name@),
        shows_text(args, "long_title"@, page.name@),
        shows_text(args, "show_title"@, page.name@),
        shows_number(args, "pid"@, page.pid as int),
        shows_text(args, "pid_pad"@, two_digits(page.pid as int)),
        shows_text(args, "pubtime"@, utc_text(video.pubtime, time_format)->0),
        shows_text(args, "fav_time"@, utc_text(video.favtime, time_format)->0),
{
    let upper_name = html_decoded(video.upper_name@);
    let pubtime = utc_text(video.pubtime, time_format)->0;
    let favtime = utc_text(video.favtime, time_format)->0;
    assert(args[0] == text_view("bvid"@, video.bvid@));
    assert(args[1] == text_view("title"@, video.name@));
    assert(args[2] == text_view("upper_name"@, upper_name));
    assert(args[3] == number_view("upper_mid"@, video.upper_id as int));
    assert(args[4] == text_view("ptitle"@, page.name@));
    assert(args[5] == number_view("pid"@, page.pid as int));
    assert(args[6] == text_view("pid_pad"@, two_digits(page.pid as int)));
    if counts_as_single_page(video) {
        assert(args[7] == text_view("pubtime"@, pubtime));
        assert(args[8] == text_view("fav_time"@, favtime));
        assert(args[9] == text_view("long_title"@, page.name@));
        assert(args[10] == text_view("show_title"@, page.name@));
    } else {
        assert(args[13] == text_view("pubtime"@, pubtime));
        assert(args[14] == text_view("fav_time"@, favtime));
        assert(args[15] == text_view("long_title"@, page.name@));
        assert(args[16] == text_view("show_title"@, page.name@));
    }
}

/// A page of a video that is recorded to have several shows more: the first season, the year in which
/// the video was published, the creator as the studio, the category, and the size of the picture. The
/// page of any other video does not.
pub proof fn page_of_several_shows_more(
    args: Seq<ArgView>,
    video: VideoModel,
    page: PageModel,
    time_format: Seq<char>,
    year: int,
)
    requires
        are_page_args(args, video, page, time_format),
        in_year(video.pubtime, year),
    ensures
        video.single_page == Some(false) ==> {
            &&& args.len() == 17
            &&& shows_number(args, "season"@, 1)
            &&& shows_text(args, "season_pad"@, two_digits(1))
            &&& shows_number(args, "year"@, year)
            &&& shows_text(args, "studio"@, html_decoded(video.upper_name@))
            &&& shows_number(args, "category"@, video.category as int)
            &&& page.width is Some && page.height is Some ==> shows_text(
                args,
                "resolution"@,
                decimal(page.width->0 as nat) + "x"@ + decimal(page.height->0 as nat),
            )
            &&& page.width is None || page.height is None ==> shows_text(
                args,
                "resolution"@,
                "Unknown"@,
            )
        },
        video.single_page != Some(false) ==> args.len() == 11,
{
    let upper_name = html_decoded(video.upper_name@);
    if video.single_page == Some(false) {
        assert(args[7] == number_view("season"@, 1));
        assert(args[8] == text_view("season_pad"@, two_digits(1)));
        assert(args[10] == text_view("studio"@, upper_name));
        assert(args[11] == number_view("category"@, video.category as int));
        assert(args[12] == text_view("resolution"@, resolution(page)));
        let found = choose|found: int|
            in_year(video.pubtime, found) && args == #[trigger] multi_page_args(
                video,
                page,
                upper_name,
                utc_text(video.pubtime, time_format)->0,
                utc_text(video.favtime, time_format)->0,
                found,
            );
        year_is_unique(video.pubtime, found, year);
        assert(args[9] == number_view("year"@, year));
    }
}

}
