//! The message that reports a finished scan.

use vstd::prelude::*;
use vstd::seq_lib::to_multiset_len;

use crate::decimal::{decimal, decimal_text};
use crate::notification::{
    is_basic, newest_first, newest_first_ignores_order, newest_first_order, picked, plain_bracket,
    sanitize_for_serverchan, sanitized, times_differ, NewVideoInfo, ScanSummary, SourceScanResult,
    MAX_CONTENT_LENGTH, MAX_VIDEOS_PER_SOURCE,
};
use crate::text::{
    byte_len, byte_length, bytes_add_up, bytes_match_chars, chars_of, fitting_prefix,
    fitting_prefix_is_longest, fitting_text, occurs, occurs_at, same_text,
};

verus! {

/// The first lines of the message. `minutes` is the duration of the scan.
pub open spec fn opening(summary: ScanSummary, minutes: Seq<char>) -> Seq<char> {
    "📊 **扫描摘要**\n\n- 扫描视频源: "@ + decimal(summary.total_sources as nat)
        + "个\n- 新增视频: "@ + decimal(summary.total_new_videos as nat)
        + "个\n- 扫描耗时: "@ + minutes + "分钟\n\n"@
}

/// The symbol of a kind of video source.
pub open spec fn icon(source_type: Seq<char>) -> Seq<char> {
    if source_type == "收藏夹"@ {
        "🎬"@
    } else if source_type == "合集"@ {
        "📁"@
    } else if source_type == "UP主投稿"@ {
        "🎯"@
    } else if source_type == "稍后再看"@ {
        "⏰"@
    } else {
        "📄"@
    }
}

/// The heading of one video source.
pub open spec fn source_heading(source: SourceScanResult) -> Seq<char> {
    icon(source.source_type@) + " **"@ + source.source_type@ + "** - "@ + sanitized(
        source.source_name@,
    ) + " ("@ + decimal(source.new_videos@.len()) + "个新视频):\n"@
}

/// The text up to the first space.
pub open spec fn up_to_space(text: Seq<char>) -> Seq<char>
    decreases text.len(),
{
    if text.len() == 0 || text[0] == ' ' {
        Seq::empty()
    } else {
        seq![text[0]] + up_to_space(text.drop_first())
    }
}

/// The line of one video: its title with a link, and the date of publication if it is known.
pub open spec fn video_line(video: NewVideoInfo) -> Seq<char> {
    let link = "- ["@ + sanitized(video.title@) + "](https://www.bilibili.com/video/"@
        + video.bvid@ + ")"@;
    match video.pubtime {
        Some(time) => link + " ("@ + up_to_space(time@) + ")"@ + "\n"@,
        None => link + "\n"@,
    }
}

/// A list of videos that is being written: the text so far, how many lines it got, and whether it
/// was cut off for length.
pub struct Listing {
    pub content: Seq<char>,
    pub shown: nat,
    pub cut: bool,
}

/// The list after its first `count` videos.
pub open spec fn listing(start: Seq<char>, videos: Seq<NewVideoInfo>, count: nat) -> Listing
    decreases count,
{
    if count == 0 {
        Listing { content: start, shown: 0, cut: false }
    } else {
        let before = listing(start, videos, (count - 1) as nat);
        if before.cut {
            before
        } else if byte_len(before.content) > MAX_CONTENT_LENGTH - 1000 {
            Listing {
                content: before.content + "...还有 "@ + decimal((videos.len() - (count - 1)) as nat)
                    + " 个视频（内容过长已省略）\n"@,
                shown: before.shown,
                cut: true,
            }
        } else {
            Listing {
                content: before.content + video_line(videos[count - 1]),
                shown: before.shown + 1,
                cut: false,
            }
        }
    }
}

/// The number of videos of a source that the message may list.
pub open spec fn listed(source: SourceScanResult) -> nat {
    if source.new_videos@.len() <= MAX_VIDEOS_PER_SOURCE {
        source.new_videos@.len()
    } else {
        MAX_VIDEOS_PER_SOURCE as nat
    }
}

/// The list of the videos of one source.
pub open spec fn source_listing(content: Seq<char>, source: SourceScanResult) -> Listing {
    listing(content + source_heading(source), newest_first(source.new_videos@), listed(source))
}

/// What stands behind the list of a source.
pub open spec fn source_closing(source: SourceScanResult) -> Seq<char> {
    if source.new_videos@.len() > MAX_VIDEOS_PER_SOURCE {
        "...还有 "@ + decimal((source.new_videos@.len() - MAX_VIDEOS_PER_SOURCE) as nat)
            + " 个视频\n"@ + "\n"@
    } else {
        "\n"@
    }
}

/// A message that is being written: the text so far, how many videos and sources it shows, and
/// whether the rest was left out for length.
pub struct Draft {
    pub content: Seq<char>,
    pub videos_shown: nat,
    pub sources_shown: nat,
    pub cut: bool,
}

/// The source has something to report.
pub open spec fn has_news(source: SourceScanResult) -> bool {
    source.new_videos@.len() > 0
}

/// The number of sources that have something to report.
pub open spec fn sources_with_news(sources: Seq<SourceScanResult>) -> nat
    decreases sources.len(),
{
    if sources.len() == 0 {
        0
    } else {
        sources_with_news(sources.drop_last()) + if has_news(sources.last()) {
            1nat
        } else {
            0nat
        }
    }
}

/// The message before any source.
pub open spec fn first_draft(summary: ScanSummary, minutes: Seq<char>) -> Draft {
    Draft {
        content: opening(summary, minutes) + "📹 **新增视频详情**\n\n"@,
        videos_shown: 0,
        sources_shown: 0,
        cut: false,
    }
}

/// The rest of the message is left out when the turn comes to this source.
pub open spec fn leaves_out_rest(draft: Draft, source: SourceScanResult) -> bool {
    !draft.cut && has_news(source) && byte_len(draft.content) > MAX_CONTENT_LENGTH - 500
}

/// The message after one more source.
pub open spec fn with_source(draft: Draft, source: SourceScanResult, summary: ScanSummary) -> Draft {
    if draft.cut || !has_news(source) {
        draft
    } else if leaves_out_rest(draft, source) {
        Draft {
            content: draft.content + "\n...还有 "@ + decimal(
                (sources_with_news(summary.source_results@) - draft.sources_shown) as nat,
            ) + " 个视频源的 "@ + decimal(
                (summary.total_new_videos - draft.videos_shown) as nat,
            ) + " 个新视频（内容过长已省略）\n"@,
            cut: true,
            ..draft
        }
    } else {
        let list = source_listing(draft.content, source);
        Draft {
            content: list.content + source_closing(source),
            videos_shown: draft.videos_shown + list.shown,
            sources_shown: draft.sources_shown + 1,
            cut: false,
        }
    }
}

/// The message after the first `count` sources.
pub open spec fn draft_after(summary: ScanSummary, minutes: Seq<char>, count: nat) -> Draft
    decreases count,
{
    if count == 0 {
        first_draft(summary, minutes)
    } else {
        with_source(
            draft_after(summary, minutes, (count - 1) as nat),
            summary.source_results@[count - 1],
            summary,
        )
    }
}

/// The message before it is made storable.
pub open spec fn raw_message(summary: ScanSummary, minutes: Seq<char>) -> Seq<char> {
    if summary.total_new_videos > 0 {
        draft_after(summary, minutes, summary.source_results@.len()).content
    } else {
        opening(summary, minutes)
    }
}

/// What stands at the end of a text that was cut.
pub open spec fn cut_note() -> Seq<char> {
    "\n\n...内容过长，已截断"@
}

/// A text that is cut where it is too long: the longest beginning that leaves room for the note
/// that it was cut, and that note.
pub open spec fn shortened(text: Seq<char>) -> Seq<char> {
    if byte_len(text) > MAX_CONTENT_LENGTH {
        fitting_prefix(text, (MAX_CONTENT_LENGTH - 100) as nat) + cut_note()
    } else {
        text
    }
}

/// The body of the message.
pub open spec fn message_body(summary: ScanSummary, minutes: Seq<char>) -> Seq<char> {
    shortened(sanitized(raw_message(summary, minutes)))
}

/// Where the rest of the message is left out, the total number of new videos is not below the
/// number of those shown.
pub open spec fn total_covers_shown(summary: ScanSummary, minutes: Seq<char>) -> bool {
    summary.total_new_videos > 0 ==> forall|k: int|
        0 <= k < summary.source_results@.len() && #[trigger] leaves_out_rest(
            draft_after(summary, minutes, k as nat),
            summary.source_results@[k],
        ) ==> draft_after(summary, minutes, k as nat).videos_shown <= summary.total_new_videos
}

fn opening_text(summary: &ScanSummary, minutes: &str) -> (text: String)
    ensures
        text@ == opening(*summary, minutes@),
{
    let mut text = "📊 **扫描摘要**\n\n- 扫描视频源: ".to_owned();
    text.append(decimal_text(summary.total_sources as u64).as_str());
    text.append("个\n- 新增视频: ");
    text.append(decimal_text(summary.total_new_videos as u64).as_str());
    text.append("个\n- 扫描耗时: ");
    text.append(minutes);
    text.append("分钟\n\n");
    text
}

fn icon_text(source_type: &str) -> (text: &'static str)
    ensures
        text@ == icon(source_type@),
{
    if same_text(source_type, "收藏夹") {
        "🎬"
    } else if same_text(source_type, "合集") {
        "📁"
    } else if same_text(source_type, "UP主投稿") {
        "🎯"
    } else if same_text(source_type, "稍后再看") {
        "⏰"
    } else {
        "📄"
    }
}

fn append_source_heading(content: &mut String, source: &SourceScanResult)
    ensures
        final(content)@ == old(content)@ + source_heading(*source),
{
    let ghost start = content@;
    content.append(icon_text(source.source_type.as_str()));
    content.append(" **");
    content.append(source.source_type.as_str());
    content.append("** - ");
    content.append(sanitize_for_serverchan(source.source_name.as_str()).as_str());
    content.append(" (");
    content.append(decimal_text(source.new_videos.len() as u64).as_str());
    content.append("个新视频):\n");
    assert(content@ =~= start + source_heading(*source));
}

/// The text up to the first space.
pub fn date_part(text: &str) -> (date: String)
    ensures
        date@ == up_to_space(text@),
{
    let chars = chars_of(text);
    let mut date = String::new();
    let mut k: usize = 0;
    assert(chars@.skip(0) =~= chars@);
    while k < chars.len() && chars[k] != ' '
        invariant
            k <= chars@.len(),
            chars@ == text@,
            up_to_space(text@) == date@ + up_to_space(chars@.skip(k as int)),
        decreases chars@.len() - k,
    {
        proof {
            let rest = chars@.skip(k as int);
            assert(rest.drop_first() =~= chars@.skip(k + 1));
            assert(date@.push(chars@[k as int]) + up_to_space(rest.drop_first()) =~= date@
                + up_to_space(rest));
        }
        date.push(chars[k]);
        k += 1;
    }
    assert(up_to_space(chars@.skip(k as int)) =~= Seq::empty());
    assert(date@ + Seq::<char>::empty() =~= date@);
    date
}

fn append_video_line(content: &mut String, video: &NewVideoInfo)
    ensures
        final(content)@ == old(content)@ + video_line(*video),
{
    let ghost start = content@;
    content.append("- [");
    content.append(sanitize_for_serverchan(video.title.as_str()).as_str());
    content.append("](https://www.bilibili.com/video/");
    content.append(video.bvid.as_str());
    content.append(")");
    if let Some(time) = &video.pubtime {
        content.append(" (");
        content.append(date_part(time.as_str()).as_str());
        content.append(")");
    }
    content.append("\n");
    assert(content@ =~= start + video_line(*video));
}

/// Writes the list of the videos of one source and returns how many it shows.
fn append_source_listing(content: &mut String, source: &SourceScanResult) -> (shown: usize)
    ensures
        final(content)@ == source_listing(old(content)@, *source).content,
        shown == source_listing(old(content)@, *source).shown,
        shown <= MAX_VIDEOS_PER_SOURCE,
{
    append_source_heading(content, source);
    let ghost start = content@;
    let order = newest_first_order(&source.new_videos);
    let ghost sorted = newest_first(source.new_videos@);
    let count: usize = if order.len() <= MAX_VIDEOS_PER_SOURCE {
        order.len()
    } else {
        MAX_VIDEOS_PER_SOURCE
    };
    let mut k: usize = 0;
    while k < count
        invariant
            k <= count <= order@.len(),
            count <= MAX_VIDEOS_PER_SOURCE,
            count == listed(*source),
            start == old(content)@ + source_heading(*source),
            sorted == newest_first(source.new_videos@),
            order@.len() == source.new_videos@.len(),
            forall|i: int|
                0 <= i < order@.len() ==> (#[trigger] order@[i]) < source.new_videos@.len(),
            picked(source.new_videos@, order@) == sorted,
            content@ == listing(start, sorted, k as nat).content,
            k == listing(start, sorted, k as nat).shown,
            !listing(start, sorted, k as nat).cut,
        decreases count - k,
    {
        assert(sorted[k as int] == source.new_videos@[order@[k as int] as int]);
        if byte_length(content.as_str()) > MAX_CONTENT_LENGTH - 1000 {
            let ghost before = content@;
            content.append("...还有 ");
            content.append(decimal_text((order.len() - k) as u64).as_str());
            content.append(" 个视频（内容过长已省略）\n");
            proof {
                let after = listing(start, sorted, (k + 1) as nat);
                assert(after.cut);
                assert(content@ =~= after.content);
                cut_listing_stays(start, sorted, (k + 1) as nat, count as nat);
            }
            return k;
        }
        append_video_line(content, &source.new_videos[order[k]]);
        k += 1;
    }
    k
}

/// A list that was cut off does not change any more.
proof fn cut_listing_stays(start: Seq<char>, videos: Seq<NewVideoInfo>, from: nat, to: nat)
    requires
        from <= to,
        listing(start, videos, from).cut,
    ensures
        listing(start, videos, to) == listing(start, videos, from),
    decreases to - from,
{
    if from < to {
        cut_listing_stays(start, videos, from, (to - 1) as nat);
    }
}

fn append_source_closing(content: &mut String, source: &SourceScanResult)
    ensures
        final(content)@ == old(content)@ + source_closing(*source),
{
    let ghost start = content@;
    if source.new_videos.len() > MAX_VIDEOS_PER_SOURCE {
        content.append("...还有 ");
        content.append(
            decimal_text((source.new_videos.len() - MAX_VIDEOS_PER_SOURCE) as u64).as_str(),
        );
        content.append(" 个视频\n");
    }
    content.append("\n");
    assert(content@ =~= start + source_closing(*source));
}

fn count_sources_with_news(sources: &Vec<SourceScanResult>) -> (count: usize)
    ensures
        count == sources_with_news(sources@),
{
    let mut count: usize = 0;
    let mut k: usize = 0;
    while k < sources.len()
        invariant
            k <= sources@.len(),
            count == sources_with_news(sources@.take(k as int)),
            count <= k,
        decreases sources@.len() - k,
    {
        assert(sources@.take(k + 1).drop_last() =~= sources@.take(k as int));
        if sources[k].new_videos.len() > 0 {
            count += 1;
        }
        k += 1;
    }
    assert(sources@.take(sources@.len() as int) =~= sources@);
    count
}

/// A message that was cut off does not change any more.
proof fn cut_draft_stays(summary: ScanSummary, minutes: Seq<char>, from: nat, to: nat)
    requires
        from <= to,
        draft_after(summary, minutes, from).cut,
    ensures
        draft_after(summary, minutes, to) == draft_after(summary, minutes, from),
    decreases to - from,
{
    if from < to {
        cut_draft_stays(summary, minutes, from, (to - 1) as nat);
    }
}

/// No more sources are shown than have something to report.
proof fn shown_sources_have_news(summary: ScanSummary, minutes: Seq<char>, count: nat)
    requires
        count <= summary.source_results@.len(),
    ensures
        draft_after(summary, minutes, count).sources_shown <= sources_with_news(
            summary.source_results@.take(count as int),
        ),
    decreases count,
{
    let sources = summary.source_results@;
    if count > 0 {
        shown_sources_have_news(summary, minutes, (count - 1) as nat);
        assert(sources.take(count as int).drop_last() =~= sources.take(count - 1));
    }
}

proof fn news_grow(sources: Seq<SourceScanResult>, count: int)
    requires
        0 <= count <= sources.len(),
    ensures
        sources_with_news(sources.take(count)) <= sources_with_news(sources),
    decreases sources.len() - count,
{
    if count == sources.len() {
        assert(sources.take(count) =~= sources);
    } else {
        news_grow(sources, count + 1);
        assert(sources.take(count + 1).drop_last() =~= sources.take(count));
    }
}

/// Writes the part of the message that lists the sources. The answer is `false`, and the text is
/// left unfinished, where the total number of new videos is below the number of those shown.
fn append_sources(
    content: &mut String,
    summary: &ScanSummary,
    Ghost(minutes): Ghost<Seq<char>>,
) -> (complete: bool)
    requires
        summary.total_new_videos > 0,
        old(content)@ == first_draft(*summary, minutes).content,
    ensures
        complete == total_covers_shown(*summary, minutes),
        complete ==> final(content)@ == raw_message(*summary, minutes),
{
    let sources = &summary.source_results;
    let mut videos_shown: u128 = 0;
    let mut sources_shown: usize = 0;
    let mut k: usize = 0;
    while k < sources.len()
        invariant
            k <= sources@.len(),
            sources == &summary.source_results,
            summary.total_new_videos > 0,
            content@ == draft_after(*summary, minutes, k as nat).content,
            videos_shown == draft_after(*summary, minutes, k as nat).videos_shown,
            sources_shown == draft_after(*summary, minutes, k as nat).sources_shown,
            !draft_after(*summary, minutes, k as nat).cut,
            forall|j: int|
                0 <= j < k ==> !#[trigger] leaves_out_rest(
                    draft_after(*summary, minutes, j as nat),
                    summary.source_results@[j],
                ),
            videos_shown <= 20 * k,
            sources_shown <= k,
        decreases sources@.len() - k,
    {
        let ghost draft = draft_after(*summary, minutes, k as nat);
        let ghost next = draft_after(*summary, minutes, (k + 1) as nat);
        assert(next == with_source(draft, sources@[k as int], *summary));
        if sources[k].new_videos.len() > 0 {
            if byte_length(content.as_str()) > MAX_CONTENT_LENGTH - 500 {
                assert(leaves_out_rest(draft, summary.source_results@[k as int]));
                if videos_shown > summary.total_new_videos as u128 {
                    return false;
                }
                proof {
                    shown_sources_have_news(*summary, minutes, k as nat);
                    news_grow(sources@, k as int);
                    cut_draft_stays(*summary, minutes, (k + 1) as nat, sources@.len());
                    assert forall|j: int| k < j < sources@.len() implies !#[trigger] leaves_out_rest(
                        draft_after(*summary, minutes, j as nat),
                        summary.source_results@[j],
                    ) by {
                        cut_draft_stays(*summary, minutes, (k + 1) as nat, j as nat);
                    }
                }
                let rest_sources: usize = count_sources_with_news(sources) - sources_shown;
                let rest_videos: u64 = (summary.total_new_videos as u128 - videos_shown) as u64;
                content.append("\n...还有 ");
                content.append(decimal_text(rest_sources as u64).as_str());
                content.append(" 个视频源的 ");
                content.append(decimal_text(rest_videos).as_str());
                content.append(" 个新视频（内容过长已省略）\n");
                assert(content@ =~= next.content);
                return true;
            }
            let shown: usize = append_source_listing(content, &sources[k]);
            append_source_closing(content, &sources[k]);
            videos_shown += shown as u128;
            sources_shown += 1;
        }
        k += 1;
    }
    true
}

/// Cuts a text that is too long.
fn shorten(text: String) -> (short: String)
    ensures
        short@ == shortened(text@),
{
    if byte_length(text.as_str()) > MAX_CONTENT_LENGTH {
        let mut short = fitting_text(text.as_str(), MAX_CONTENT_LENGTH - 100);
        short.append("\n\n...内容过长，已截断");
        short
    } else {
        text
    }
}

/// The title and the body of the message that reports a scan, or `None` where the total number of
/// new videos is below the number of those shown. `minutes` is the duration of the scan in
/// minutes, as it is to be shown.
pub fn try_format_scan_message(summary: &ScanSummary, minutes: &str) -> (message: Option<
    (String, String),
>)
    ensures
        message is Some <==> total_covers_shown(*summary, minutes@),
        message matches Some(parts) ==> {
            &&& parts.0@ == "Bili Sync 扫描完成"@
            &&& parts.1@ == message_body(*summary, minutes@)
        },
{
    let title = "Bili Sync 扫描完成".to_owned();
    let mut content = opening_text(summary, minutes);
    if summary.total_new_videos > 0 {
        content.append("📹 **新增视频详情**\n\n");
        if !append_sources(&mut content, summary, Ghost(minutes@)) {
            return None;
        }
    }
    let clean = sanitize_for_serverchan(content.as_str());
    Some((title, shorten(clean)))
}

/// The title and the body of the message that reports a scan. `minutes` is the duration of the
/// scan in minutes, as it is to be shown.
pub fn format_scan_message(summary: &ScanSummary, minutes: &str) -> (message: (String, String))
    requires
        total_covers_shown(*summary, minutes@),
    ensures
        message.0@ == "Bili Sync 扫描完成"@,
        message.1@ == message_body(*summary, minutes@),
{
    try_format_scan_message(summary, minutes).unwrap()
}

/// The push service can store the text: it holds no full-width bracket and no character outside
/// the basic multilingual plane.
pub open spec fn is_storable(text: Seq<char>) -> bool {
    forall|i: int|
        0 <= i < text.len() ==> is_basic(#[trigger] text[i]) && plain_bracket(text[i]) == text[i]
}

/// A sanitised text can be stored.
pub proof fn sanitized_is_storable(text: Seq<char>)
    ensures
        is_storable(sanitized(text)),
    decreases text.len(),
{
    reveal(Seq::filter);
    let plain = text.map_values(|c: char| plain_bracket(c));
    if text.len() > 0 {
        sanitized_is_storable(text.drop_last());
        assert(plain.drop_last() =~= text.drop_last().map_values(|c: char| plain_bracket(c)));
        assert(plain.last() == plain_bracket(text.last()));
    }
}

/// A text that can be stored is left as it is, so that sanitising twice changes nothing more.
pub proof fn storable_is_kept(text: Seq<char>)
    requires
        is_storable(text),
    ensures
        sanitized(text) == text,
    decreases text.len(),
{
    reveal(Seq::filter);
    let plain = text.map_values(|c: char| plain_bracket(c));
    assert(plain =~= text);
    if text.len() > 0 {
        assert forall|i: int| 0 <= i < text.drop_last().len() implies is_basic(
            #[trigger] text.drop_last()[i],
        ) && plain_bracket(text.drop_last()[i]) == text.drop_last()[i] by {
            assert(text[i] == text.drop_last()[i]);
        }
        storable_is_kept(text.drop_last());
        assert(plain.drop_last() =~= text.drop_last().map_values(|c: char| plain_bracket(c)));
        assert(is_basic(text[text.len() - 1]));
        assert(text.drop_last().push(text.last()) =~= text);
    }
}

/// The body of every message can be stored by the push service.
pub proof fn message_is_storable(summary: ScanSummary, minutes: Seq<char>)
    ensures
        is_storable(message_body(summary, minutes)),
{
    let text = sanitized(raw_message(summary, minutes));
    sanitized_is_storable(raw_message(summary, minutes));
    fitting_prefix_is_longest(text, (MAX_CONTENT_LENGTH - 100) as nat);
    reveal_strlit("\n\n...内容过长，已截断");
}

/// The body of a message never takes more bytes than allowed.
pub proof fn message_is_short(summary: ScanSummary, minutes: Seq<char>)
    ensures
        byte_len(message_body(summary, minutes)) <= MAX_CONTENT_LENGTH,
{
    let text = sanitized(raw_message(summary, minutes));
    let prefix = fitting_prefix(text, (MAX_CONTENT_LENGTH - 100) as nat);
    fitting_prefix_is_longest(text, (MAX_CONTENT_LENGTH - 100) as nat);
    bytes_add_up(prefix, cut_note());
    bytes_match_chars(cut_note());
    reveal_strlit("\n\n...内容过长，已截断");
}

/// The number of new videos of all sources.
pub open spec fn videos_found(sources: Seq<SourceScanResult>) -> nat
    decreases sources.len(),
{
    if sources.len() == 0 {
        0
    } else {
        videos_found(sources.drop_last()) + sources.last().new_videos@.len()
    }
}

proof fn listing_shows_no_more(start: Seq<char>, videos: Seq<NewVideoInfo>, count: nat)
    ensures
        listing(start, videos, count).shown <= count,
    decreases count,
{
    if count > 0 {
        listing_shows_no_more(start, videos, (count - 1) as nat);
    }
}

proof fn draft_shows_no_more(summary: ScanSummary, minutes: Seq<char>, count: nat)
    requires
        count <= summary.source_results@.len(),
    ensures
        draft_after(summary, minutes, count).videos_shown <= videos_found(
            summary.source_results@.take(count as int),
        ),
    decreases count,
{
    let sources = summary.source_results@;
    if count > 0 {
        draft_shows_no_more(summary, minutes, (count - 1) as nat);
        assert(sources.take(count as int).drop_last() =~= sources.take(count - 1));
        let draft = draft_after(summary, minutes, (count - 1) as nat);
        let source = sources[count - 1];
        listing_shows_no_more(
            draft.content + source_heading(source),
            newest_first(source.new_videos@),
            listed(source),
        );
    }
}

proof fn found_grow(sources: Seq<SourceScanResult>, count: int)
    requires
        0 <= count <= sources.len(),
    ensures
        videos_found(sources.take(count)) <= videos_found(sources),
    decreases sources.len() - count,
{
    if count == sources.len() {
        assert(sources.take(count) =~= sources);
    } else {
        found_grow(sources, count + 1);
        assert(sources.take(count + 1).drop_last() =~= sources.take(count));
    }
}

/// A summary whose total counts every new video of its sources can always be reported.
pub proof fn honest_total_covers_shown(summary: ScanSummary, minutes: Seq<char>)
    requires
        videos_found(summary.source_results@) <= summary.total_new_videos,
    ensures
        total_covers_shown(summary, minutes),
{
    assert forall|k: int|
        0 <= k < summary.source_results@.len() && #[trigger] leaves_out_rest(
            draft_after(summary, minutes, k as nat),
            summary.source_results@[k],
        ) implies draft_after(summary, minutes, k as nat).videos_shown
        <= summary.total_new_videos by {
        draft_shows_no_more(summary, minutes, k as nat);
        found_grow(summary.source_results@, k);
    }
}

/// Two sources have the same kind and name, and the same videos in any order. No two of these were
/// published at the same time.
pub open spec fn lists_same_videos(a: SourceScanResult, b: SourceScanResult) -> bool {
    &&& a.source_type@ == b.source_type@
    &&& a.source_name@ == b.source_name@
    &&& a.new_videos@.to_multiset() == b.new_videos@.to_multiset()
    &&& times_differ(a.new_videos@)
    &&& times_differ(b.new_videos@)
}

/// Two scans found the same in the same sources.
pub open spec fn found_same(a: ScanSummary, b: ScanSummary) -> bool {
    &&& a.total_sources == b.total_sources
    &&& a.total_new_videos == b.total_new_videos
    &&& a.source_results@.len() == b.source_results@.len()
    &&& forall|i: int|
        0 <= i < a.source_results@.len() ==> lists_same_videos(
            #[trigger] a.source_results@[i],
            b.source_results@[i],
        )
}

proof fn same_number_of_videos(a: SourceScanResult, b: SourceScanResult)
    requires
        lists_same_videos(a, b),
    ensures
        a.new_videos@.len() == b.new_videos@.len(),
{
    to_multiset_len(a.new_videos@);
    to_multiset_len(b.new_videos@);
}

proof fn same_number_with_news(a: Seq<SourceScanResult>, b: Seq<SourceScanResult>)
    requires
        a.len() == b.len(),
        forall|i: int| 0 <= i < a.len() ==> lists_same_videos(#[trigger] a[i], b[i]),
    ensures
        sources_with_news(a) == sources_with_news(b),
    decreases a.len(),
{
    if a.len() > 0 {
        assert forall|i: int| 0 <= i < a.drop_last().len() implies lists_same_videos(
            #[trigger] a.drop_last()[i],
            b.drop_last()[i],
        ) by {
            assert(lists_same_videos(a[i], b[i]));
        }
        same_number_with_news(a.drop_last(), b.drop_last());
        assert(lists_same_videos(a[a.len() - 1], b[b.len() - 1]));
        same_number_of_videos(a.last(), b.last());
    }
}

proof fn same_drafts(a: ScanSummary, b: ScanSummary, minutes: Seq<char>, count: nat)
    requires
        found_same(a, b),
        count <= a.source_results@.len(),
    ensures
        draft_after(a, minutes, count) == draft_after(b, minutes, count),
    decreases count,
{
    if count > 0 {
        same_drafts(a, b, minutes, (count - 1) as nat);
        let of_a = a.source_results@[count - 1];
        let of_b = b.source_results@[count - 1];
        assert(lists_same_videos(of_a, of_b));
        same_number_of_videos(of_a, of_b);
        newest_first_ignores_order(of_a.new_videos@, of_b.new_videos@);
        same_number_with_news(a.source_results@, b.source_results@);
        assert(source_heading(of_a) == source_heading(of_b));
        assert(source_closing(of_a) == source_closing(of_b));
    }
}

/// Where the videos of each source were published at different times, the message does not depend on
/// the order in which they were found, and whether it can be written does not either.
pub proof fn message_ignores_order(a: ScanSummary, b: ScanSummary, minutes: Seq<char>)
    requires
        found_same(a, b),
    ensures
        message_body(a, minutes) == message_body(b, minutes),
        total_covers_shown(a, minutes) == total_covers_shown(b, minutes),
{
    same_drafts(a, b, minutes, a.source_results@.len());
    assert forall|k: int| 0 <= k < a.source_results@.len() implies leaves_out_rest(
        draft_after(a, minutes, k as nat),
        #[trigger] a.source_results@[k],
    ) == leaves_out_rest(draft_after(b, minutes, k as nat), b.source_results@[k]) && draft_after(
        a,
        minutes,
        k as nat,
    ) == draft_after(b, minutes, k as nat) by {
        same_drafts(a, b, minutes, k as nat);
        assert(lists_same_videos(a.source_results@[k], b.source_results@[k]));
        same_number_of_videos(a.source_results@[k], b.source_results@[k]);
    }
    if total_covers_shown(a, minutes) && b.total_new_videos > 0 {
        assert forall|k: int|
            0 <= k < b.source_results@.len() && #[trigger] leaves_out_rest(
                draft_after(b, minutes, k as nat),
                b.source_results@[k],
            ) implies draft_after(b, minutes, k as nat).videos_shown <= b.total_new_videos by {
            assert(a.source_results@[k] == a.source_results@[k]);
            assert(leaves_out_rest(draft_after(a, minutes, k as nat), a.source_results@[k]));
        }
    }
    if total_covers_shown(b, minutes) && a.total_new_videos > 0 {
        assert forall|k: int|
            0 <= k < a.source_results@.len() && #[trigger] leaves_out_rest(
                draft_after(a, minutes, k as nat),
                a.source_results@[k],
            ) implies draft_after(a, minutes, k as nat).videos_shown <= a.total_new_videos by {
            assert(leaves_out_rest(draft_after(b, minutes, k as nat), b.source_results@[k]));
        }
    }
}

/// A message opens with the number of sources, the number of new videos and the duration, each under
/// its own heading.
pub proof fn opening_tells_the_numbers(summary: ScanSummary, minutes: Seq<char>)
    ensures
        opening(summary, minutes) == "📊 **扫描摘要**\n\n- 扫描视频源: "@ + decimal(
            summary.total_sources as nat,
        ) + "个\n- 新增视频: "@ + decimal(summary.total_new_videos as nat) + "个\n- 扫描耗时: "@
            + minutes + "分钟\n\n"@,
        summary.total_new_videos == 0 ==> message_body(summary, minutes) == shortened(
            sanitized(opening(summary, minutes)),
        ),
{
}

/// Each kind of source has its own symbol, and any other kind a common one.
pub proof fn sources_have_their_symbols(source_type: Seq<char>)
    ensures
        icon("收藏夹"@) == "🎬"@,
        icon("合集"@) == "📁"@,
        icon("UP主投稿"@) == "🎯"@,
        icon("稍后再看"@) == "⏰"@,
        source_type != "收藏夹"@ && source_type != "合集"@ && source_type != "UP主投稿"@
            && source_type != "稍后再看"@ ==> icon(source_type) == "📄"@,
{
    reveal_strlit("收藏夹");
    reveal_strlit("合集");
    reveal_strlit("UP主投稿");
    reveal_strlit("稍后再看");
    assert("收藏夹"@[0] != "合集"@[0]);
    assert("收藏夹"@[0] != "UP主投稿"@[0]);
    assert("收藏夹"@[0] != "稍后再看"@[0]);
    assert("合集"@[0] != "UP主投稿"@[0]);
    assert("合集"@[0] != "稍后再看"@[0]);
    assert("UP主投稿"@[0] != "稍后再看"@[0]);
}

/// The heading of a source shows its kind, its name in a form that can be stored, and how many new
/// videos it has, listed or not.
pub proof fn heading_tells_the_source(source: SourceScanResult)
    ensures
        source_heading(source) == icon(source.source_type@) + " **"@ + source.source_type@
            + "** - "@ + sanitized(source.source_name@) + " ("@ + decimal(
            source.new_videos@.len(),
        ) + "个新视频):\n"@,
{
}

/// The date of a time is what stands in front of its first space, and the whole text where there is
/// none.
pub proof fn date_ends_at_the_first_space(date: Seq<char>, rest: Seq<char>)
    requires
        !date.contains(' '),
    ensures
        up_to_space(date) == date,
        up_to_space(date + seq![' '] + rest) == date,
    decreases date.len(),
{
    let whole = date + seq![' '] + rest;
    if date.len() > 0 {
        let tail = date.drop_first();
        assert(date[0] != ' ') by {
            assert(date.contains(date[0]));
        }
        assert(!tail.contains(' ')) by {
            if tail.contains(' ') {
                let i = choose|i: int| 0 <= i < tail.len() && tail[i] == ' ';
                assert(date[i + 1] == ' ');
            }
        }
        date_ends_at_the_first_space(tail, rest);
        assert(whole.drop_first() =~= tail + seq![' '] + rest);
        assert(seq![date[0]] + tail =~= date);
        assert(whole[0] == date[0]);
    } else {
        assert(whole[0] == ' ');
        assert(date =~= Seq::empty());
    }
}

/// The line of a video links its title to its page, and shows the date of its publication exactly if
/// that is known.
pub proof fn line_links_the_video(video: NewVideoInfo)
    ensures
        video.pubtime is None ==> video_line(video) == "- ["@ + sanitized(video.title@)
            + "](https://www.bilibili.com/video/"@ + video.bvid@ + ")"@ + "\n"@,
        video.pubtime matches Some(time) ==> video_line(video) == "- ["@ + sanitized(video.title@)
            + "](https://www.bilibili.com/video/"@ + video.bvid@ + ")"@ + " ("@ + up_to_space(
            time@,
        ) + ")"@ + "\n"@,
{
}

/// A list gets one line for each video as long as the message has at most twenty-nine thousand bytes.
/// Then one line tells how many videos of the source are left, and after it the list does not grow.
pub proof fn list_grows_by_lines(start: Seq<char>, videos: Seq<NewVideoInfo>, count: nat)
    requires
        count < videos.len(),
    ensures
        ({
            let before = listing(start, videos, count);
            let after = listing(start, videos, count + 1);
            &&& before.cut ==> after == before
            &&& !before.cut && byte_len(before.content) <= 29000 ==> after.content == before.content
                + video_line(videos[count as int]) && after.shown == before.shown + 1 && !after.cut
            &&& !before.cut && byte_len(before.content) > 29000 ==> after.content == before.content
                + "...还有 "@ + decimal((videos.len() - count) as nat)
                + " 个视频（内容过长已省略）\n"@ && after.shown == before.shown && after.cut
        }),
        listing(start, videos, 0) == (Listing { content: start, shown: 0, cut: false }),
{
}

/// At most twenty videos of a source are listed, and where there are more, the list ends with how many
/// are left out.
pub proof fn long_lists_are_closed(source: SourceScanResult)
    ensures
        source.new_videos@.len() <= 20 ==> listed(source) == source.new_videos@.len()
            && source_closing(source) == "\n"@,
        source.new_videos@.len() > 20 ==> listed(source) == 20 && source_closing(source)
            == "...还有 "@ + decimal((source.new_videos@.len() - 20) as nat) + " 个视频\n"@ + "\n"@,
{
}

/// A source without new videos leaves no trace in the message. Any other source gets its heading, its
/// list from the newest video on, and its closing, and counts with what was listed of it.
pub proof fn sources_are_written_in_turn(
    draft: Draft,
    source: SourceScanResult,
    summary: ScanSummary,
)
    ensures
        source.new_videos@.len() == 0 || draft.cut ==> with_source(draft, source, summary) == draft,
        source.new_videos@.len() > 0 && !draft.cut && byte_len(draft.content) <= 29500 ==> {
            let list = listing(
                draft.content + source_heading(source),
                newest_first(source.new_videos@),
                listed(source),
            );
            let after = with_source(draft, source, summary);
            &&& after.content == list.content + source_closing(source)
            &&& after.videos_shown == draft.videos_shown + list.shown
            &&& after.sources_shown == draft.sources_shown + 1
            &&& !after.cut
        },
{
}

/// Where a message has more than twenty-nine and a half thousand bytes, the rest is left out, and it
/// tells how many sources and how many videos that are.
pub proof fn left_out_sources_are_counted(
    draft: Draft,
    source: SourceScanResult,
    summary: ScanSummary,
)
    requires
        source.new_videos@.len() > 0,
        !draft.cut,
        byte_len(draft.content) > 29500,
        draft.sources_shown <= sources_with_news(summary.source_results@),
        draft.videos_shown <= summary.total_new_videos,
    ensures
        ({
            let after = with_source(draft, source, summary);
            &&& after.cut
            &&& after.videos_shown == draft.videos_shown
            &&& after.sources_shown == draft.sources_shown
            &&& after.content == draft.content + "\n...还有 "@ + decimal(
                (sources_with_news(summary.source_results@) - draft.sources_shown) as nat,
            ) + " 个视频源的 "@ + decimal((summary.total_new_videos - draft.videos_shown) as nat)
                + " 个新视频（内容过长已省略）\n"@
        }),
{
}

/// The sources with new videos are counted, each once, wherever they stand.
pub proof fn sources_with_news_are_counted(sources: Seq<SourceScanResult>, next: SourceScanResult)
    ensures
        sources_with_news(Seq::empty()) == 0,
        sources_with_news(sources.push(next)) == sources_with_news(sources)
            + if next.new_videos@.len() > 0 {
            1int
        } else {
            0
        },
{
    assert(sources.push(next).drop_last() =~= sources);
}

/// A text of at most thirty thousand bytes is sent whole. A longer one is cut to at most twenty-nine
/// thousand nine hundred bytes, and says so at its end.
pub proof fn only_long_texts_are_cut(text: Seq<char>)
    ensures
        byte_len(text) <= 30000 ==> shortened(text) == text,
        byte_len(text) > 30000 ==> {
            let kept = fitting_prefix(text, 29900);
            &&& shortened(text) == kept + "\n\n...内容过长，已截断"@
            &&& byte_len(kept) <= 29900
            &&& kept == text.take(kept.len() as int)
        },
{
    fitting_prefix_is_longest(text, 29900);
}

proof fn prefixes_chain(a: Seq<char>, b: Seq<char>, c: Seq<char>)
    requires
        a.is_prefix_of(b),
        b.is_prefix_of(c),
    ensures
        a.is_prefix_of(c),
{
    assert(c.subrange(0, a.len() as int) =~= a) by {
        assert forall|i: int| 0 <= i < a.len() implies a[i] == #[trigger] c[i] by {
            assert(b.subrange(0, a.len() as int)[i] == b[i]);
            assert(c.subrange(0, b.len() as int)[i] == c[i]);
        }
    }
}

proof fn appended_to(a: Seq<char>, b: Seq<char>)
    ensures
        a.is_prefix_of(a + b),
{
    assert((a + b).subrange(0, a.len() as int) =~= a);
}

proof fn prefix_stays(text: Seq<char>, front: Seq<char>, pattern: Seq<char>, at: int)
    requires
        front.is_prefix_of(text),
        occurs_at(front, pattern, at),
    ensures
        occurs_at(text, pattern, at),
{
    assert(text.subrange(at, at + pattern.len()) =~= front.subrange(at, at + pattern.len()));
}

proof fn list_keeps_its_lines(start: Seq<char>, videos: Seq<NewVideoInfo>, count: nat)
    ensures
        start.is_prefix_of(listing(start, videos, count).content),
        listing(start, videos, count).shown <= count,
        !listing(start, videos, count).cut ==> listing(start, videos, count).shown == count,
        forall|i: int|
            0 <= i < listing(start, videos, count).shown ==> occurs(
                listing(start, videos, count).content,
                video_line(#[trigger] videos[i]),
            ),
    decreases count,
{
    if count > 0 {
        list_keeps_its_lines(start, videos, (count - 1) as nat);
        let before = listing(start, videos, (count - 1) as nat);
        let after = listing(start, videos, count);
        assert(before.content.is_prefix_of(after.content));
        assert forall|i: int| 0 <= i < after.shown implies occurs(
            after.content,
            video_line(#[trigger] videos[i]),
        ) by {
            let line = video_line(videos[i]);
            if i < before.shown {
                assert(occurs(before.content, line));
                let at = choose|at: int| occurs_at(before.content, line, at);
                prefix_stays(after.content, before.content, line, at);
            } else {
                let at = before.content.len() as int;
                assert(after.content.subrange(at, at + line.len()) =~= line);
                assert(occurs_at(after.content, line, at));
            }
        }
    }
}

proof fn draft_keeps_its_text(summary: ScanSummary, minutes: Seq<char>, from: nat, to: nat)
    requires
        from <= to <= summary.source_results@.len(),
    ensures
        draft_after(summary, minutes, from).content.is_prefix_of(
            draft_after(summary, minutes, to).content,
        ),
    decreases to - from,
{
    if from < to {
        draft_keeps_its_text(summary, minutes, from, (to - 1) as nat);
        let before = draft_after(summary, minutes, (to - 1) as nat);
        let after = draft_after(summary, minutes, to);
        let source = summary.source_results@[to - 1];
        list_keeps_its_lines(
            before.content + source_heading(source),
            newest_first(source.new_videos@),
            listed(source),
        );
        if !before.cut && has_news(source) && !leaves_out_rest(before, source) {
            let list = source_listing(before.content, source);
            appended_to(before.content, source_heading(source));
            prefixes_chain(before.content, before.content + source_heading(source), list.content);
            appended_to(list.content, source_closing(source));
            prefixes_chain(before.content, list.content, after.content);
        } else {
            assert(before.content.is_prefix_of(after.content));
        }
        prefixes_chain(
            draft_after(summary, minutes, from).content,
            before.content,
            after.content,
        );
    }
}

/// Every source whose turn comes before the message gets too long stands in it with its heading, and
/// with a line for each of its newest videos that was listed. Where the list of the source was not cut
/// either, these are all its videos, or the newest twenty.
pub proof fn message_names_the_videos(summary: ScanSummary, minutes: Seq<char>, at: int, i: int)
    requires
        summary.total_new_videos > 0,
        0 <= at < summary.source_results@.len(),
        summary.source_results@[at].new_videos@.len() > 0,
        !draft_after(summary, minutes, (at + 1) as nat).cut,
        0 <= i < source_listing(
            draft_after(summary, minutes, at as nat).content,
            summary.source_results@[at],
        ).shown,
    ensures
        occurs(raw_message(summary, minutes), source_heading(summary.source_results@[at])),
        occurs(
            raw_message(summary, minutes),
            video_line(newest_first(summary.source_results@[at].new_videos@)[i]),
        ),
        !source_listing(
            draft_after(summary, minutes, at as nat).content,
            summary.source_results@[at],
        ).cut ==> source_listing(
            draft_after(summary, minutes, at as nat).content,
            summary.source_results@[at],
        ).shown == if summary.source_results@[at].new_videos@.len() < 20 {
            summary.source_results@[at].new_videos@.len() as int
        } else {
            20
        },
{
    let source = summary.source_results@[at];
    let draft = draft_after(summary, minutes, at as nat);
    let next = draft_after(summary, minutes, (at + 1) as nat);
    let whole = raw_message(summary, minutes);
    let start = draft.content + source_heading(source);
    let videos = newest_first(source.new_videos@);
    let list = source_listing(draft.content, source);
    assert(next == with_source(draft, source, summary));
    list_keeps_its_lines(start, videos, listed(source));
    draft_keeps_its_text(summary, minutes, (at + 1) as nat, summary.source_results@.len());
    assert(list.content.is_prefix_of(next.content));
    let heading = source_heading(source);
    let from = draft.content.len() as int;
    assert(start.subrange(from, from + heading.len()) =~= heading);
    assert(occurs_at(start, heading, from));
    prefix_stays(list.content, start, heading, from);
    prefix_stays(next.content, list.content, heading, from);
    prefix_stays(whole, next.content, heading, from);
    let line = video_line(videos[i]);
    assert(occurs(list.content, line));
    let line_at = choose|line_at: int| occurs_at(list.content, line, line_at);
    prefix_stays(next.content, list.content, line, line_at);
    prefix_stays(whole, next.content, line, line_at);
}

/// A message that is short enough and can be stored as it is, is sent as it is.
pub proof fn plain_messages_are_sent_whole(summary: ScanSummary, minutes: Seq<char>)
    requires
        is_storable(raw_message(summary, minutes)),
        byte_len(raw_message(summary, minutes)) <= 30000,
    ensures
        message_body(summary, minutes) == raw_message(summary, minutes),
{
    storable_is_kept(raw_message(summary, minutes));
}

/// A message about new videos begins with the numbers and the heading of the details, whatever the
/// sources hold; without new videos it is nothing but the numbers.
pub proof fn messages_begin_alike(summary: ScanSummary, minutes: Seq<char>)
    ensures
        summary.total_new_videos == 0 ==> raw_message(summary, minutes) == opening(
            summary,
            minutes,
        ),
        summary.total_new_videos > 0 ==> (opening(summary, minutes)
            + "📹 **新增视频详情**\n\n"@).is_prefix_of(raw_message(summary, minutes)),
{
    draft_keeps_its_text(summary, minutes, 0, summary.source_results@.len());
}

}
