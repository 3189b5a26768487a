//! Reading the list of a video source and telling which videos are new.

use vstd::prelude::*;

use crate::clock::{
    format_at_offset, format_utc, in_calendar, is_later, later, latest_of, offset_text, utc_text, Moment,
    BEIJING_OFFSET,
};
use crate::entity::SOURCE_TYPE_BANGUMI;
use crate::notification::NewVideoInfo;
use crate::text::{same_text, text_option};

verus! {

/// The format in which times are recorded.
pub open spec fn row_format() -> Seq<char> {
    "%Y-%m-%d %H:%M:%S"@
}

/// The moment from which everything is new.
pub open spec fn epoch() -> Moment {
    Moment { seconds: 0, nanos: 0 }
}

/// An entry of the list of a video source.
#[derive(Debug, Clone)]
pub enum ListEntry {
    /// A video with the time of its release, and whether the source still takes it as new.
    Video { released: Moment, wanted: bool },
    /// The list cannot be read any further.
    Failed(String),
}

/// What reading the list has shown so far.
pub struct ScanView {
    pub newest: Moment,
    pub failure: Option<Seq<char>>,
}

/// The entry is a video that is taken.
pub open spec fn takes(entry: ListEntry, cancelled: bool) -> bool {
    !cancelled && (entry matches ListEntry::Video { released, wanted } && wanted)
}

/// What reading one more entry shows. An entry that comes after the run was cancelled is not
/// looked at.
pub open spec fn scan_after(scan: ScanView, entry: ListEntry, cancelled: bool) -> ScanView {
    if cancelled {
        scan
    } else {
        match entry {
            ListEntry::Failed(message) => ScanView { failure: Some(message@), ..scan },
            ListEntry::Video { released, wanted } => ScanView {
                newest: latest_of(scan.newest, released),
                ..scan
            },
        }
    }
}

/// The time that is to be recorded as that of the newest known video, if it is not the one that was
/// known before.
pub open spec fn row_to_record(scan: ScanView, known: Moment) -> Option<Seq<char>> {
    if scan.newest == known {
        None
    } else {
        offset_text(scan.newest, BEIJING_OFFSET, row_format())
    }
}

/// Reads the list of a video source, from new to old, up to the first video that is not new.
#[derive(Debug)]
pub struct ListScan {
    latest: Moment,
    newest: Moment,
    failure: Option<String>,
}

impl View for ListScan {
    type V = ScanView;

    closed spec fn view(&self) -> ScanView {
        ScanView { newest: self.newest, failure: text_option(self.failure) }
    }
}

impl ListScan {
    /// The time of the newest video that was known before.
    pub closed spec fn known_before(self) -> Moment {
        self.latest
    }

    /// Starts with the time of the newest video that is known, if one is.
    pub fn new(latest: Option<Moment>) -> (scan: Self)
        ensures
            scan.known_before() == if latest is Some { latest->0 } else { epoch() },
            scan@ == (ScanView { newest: scan.known_before(), failure: None }),
    {
        let latest: Moment = match latest {
            Some(moment) => moment,
            None => Moment { seconds: 0, nanos: 0 },
        };
        ListScan { latest, newest: latest, failure: None }
    }

    /// Takes one entry; the answer says whether it is a new video, and reading goes on.
    pub fn observe(&mut self, entry: ListEntry, cancelled: bool) -> (taken: bool)
        ensures
            taken == takes(entry, cancelled),
            final(self)@ == scan_after(old(self)@, entry, cancelled),
            final(self).known_before() == old(self).known_before(),
    {
        if cancelled {
            return false;
        }
        match entry {
            ListEntry::Failed(message) => {
                self.failure = Some(message);
                false
            },
            ListEntry::Video { released, wanted } => {
                if is_later(released, self.newest) {
                    self.newest = released;
                }
                wanted
            },
        }
    }

    /// The time that is to be recorded as that of the newest known video, in Beijing time, or
    /// `None` if it stays as it is. Where the list could not be read to its end, the complaint is
    /// given instead and nothing is recorded.
    pub fn finish(&self) -> (outcome: Result<Option<String>, String>)
        ensures
            outcome is Ok <==> self@.failure is None,
            outcome matches Err(message) ==> Some(message@) == self@.failure,
            outcome matches Ok(row) ==> text_option(row) == row_to_record(
                self@,
                self.known_before(),
            ),
            outcome matches Ok(row) ==> text_option(row) == if self@.newest == self.known_before() {
                None::<Seq<char>>
            } else {
                offset_text(self@.newest, BEIJING_OFFSET, row_format())
            },
            outcome matches Ok(row) ==> self@.newest != self.known_before() && in_calendar(
                self@.newest,
            ) ==> row is Some,
    {
        match &self.failure {
            Some(message) => Err(message.clone()),
            None => {
                if self.newest == self.latest {
                    Ok(None)
                } else {
                    Ok(format_at_offset(self.newest, BEIJING_OFFSET, "%Y-%m-%d %H:%M:%S"))
                }
            },
        }
    }
}

/// What reading the entries in turn shows.
pub open spec fn scan_of(start: Moment, entries: Seq<ListEntry>) -> ScanView
    decreases entries.len(),
{
    if entries.len() == 0 {
        ScanView { newest: start, failure: None }
    } else {
        scan_after(scan_of(start, entries.drop_last()), entries.last(), false)
    }
}

/// The entry is a video that was released at this time.
pub open spec fn is_released_at(entry: ListEntry, time: Moment) -> bool {
    entry matches ListEntry::Video { released, wanted } && released == time
}

/// The recorded time never goes back, and no video that was looked at is newer than it. It is the one
/// that was recorded before, or that of a video that was looked at.
pub proof fn newest_is_newest(start: Moment, entries: Seq<ListEntry>)
    ensures
        !later(start, scan_of(start, entries).newest),
        forall|i: int|
            0 <= i < entries.len() ==> (#[trigger] entries[i] matches ListEntry::Video {
                released,
                wanted,
            } ==> !later(released, scan_of(start, entries).newest)),
        scan_of(start, entries).newest == start || exists|i: int|
            0 <= i < entries.len() && is_released_at(
                #[trigger] entries[i],
                scan_of(start, entries).newest,
            ),
    decreases entries.len(),
{
    if entries.len() > 0 {
        let front = entries.drop_last();
        newest_is_newest(start, front);
        assert forall|i: int| 0 <= i < entries.len() implies (#[trigger] entries[i] matches ListEntry::Video {
            released,
            wanted,
        } ==> !later(released, scan_of(start, entries).newest)) by {
            if i < front.len() {
                assert(entries[i] == front[i]);
            }
        }
        let before = scan_of(start, front).newest;
        let after = scan_of(start, entries).newest;
        if after != before {
            assert(is_released_at(entries[entries.len() - 1], after));
        } else if before != start {
            let i = choose|i: int| 0 <= i < front.len() && is_released_at(#[trigger] front[i], before);
            assert(is_released_at(entries[i], after));
        }
    }
}

/// A video as the list of its source describes it.
#[derive(Debug, Clone)]
pub enum VideoInfo {
    Detail { title: String, bvid: String, upper_name: String },
    Favorite { title: String, bvid: String, upper_name: String },
    /// The name of the author stands in an attachment that may lack it.
    Collection { title: String, bvid: String, author_name: Option<String> },
    WatchLater { title: String, bvid: String, upper_name: String },
    Submission { title: String, bvid: String },
    Bangumi { title: String, bvid: String, episode_number: Option<i32>, ep_id: String },
}

/// What a notification says of a video.
#[derive(Debug, Clone)]
pub struct VideoBrief {
    pub title: String,
    pub bvid: String,
    pub upper_name: String,
    pub episode_number: Option<i32>,
    pub ep_id: Option<String>,
}

/// What a notification says of a video, as plain text.
pub struct BriefView {
    pub title: Seq<char>,
    pub bvid: Seq<char>,
    pub upper_name: Seq<char>,
    pub episode_number: Option<i32>,
    pub ep_id: Option<Seq<char>>,
}

impl View for VideoBrief {
    type V = BriefView;

    open spec fn view(&self) -> BriefView {
        BriefView {
            title: self.title@,
            bvid: self.bvid@,
            upper_name: self.upper_name@,
            episode_number: self.episode_number,
            ep_id: text_option(self.ep_id),
        }
    }
}

/// What a notification says of a video by its listing.
pub open spec fn brief_of(info: VideoInfo) -> BriefView {
    match info {
        VideoInfo::Detail { title, bvid, upper_name } => BriefView {
            title: title@,
            bvid: bvid@,
            upper_name: upper_name@,
            episode_number: None,
            ep_id: None,
        },
        VideoInfo::Favorite { title, bvid, upper_name } => BriefView {
            title: title@,
            bvid: bvid@,
            upper_name: upper_name@,
            episode_number: None,
            ep_id: None,
        },
        VideoInfo::Collection { title, bvid, author_name } => BriefView {
            title: title@,
            bvid: bvid@,
            upper_name: match author_name {
                Some(name) => name@,
                None => "未知"@,
            },
            episode_number: None,
            ep_id: None,
        },
        VideoInfo::WatchLater { title, bvid, upper_name } => BriefView {
            title: title@,
            bvid: bvid@,
            upper_name: upper_name@,
            episode_number: None,
            ep_id: None,
        },
        VideoInfo::Submission { title, bvid } => BriefView {
            title: title@,
            bvid: bvid@,
            upper_name: "未知"@,
            episode_number: None,
            ep_id: None,
        },
        VideoInfo::Bangumi { title, bvid, episode_number, ep_id } => BriefView {
            title: title@,
            bvid: bvid@,
            upper_name: "番剧"@,
            episode_number,
            ep_id: Some(ep_id@),
        },
    }
}

fn plain_brief(title: &String, bvid: &String, upper_name: String) -> (brief: VideoBrief)
    ensures
        brief@ == (BriefView {
            title: title@,
            bvid: bvid@,
            upper_name: upper_name@,
            episode_number: None,
            ep_id: None,
        }),
{
    VideoBrief {
        title: title.clone(),
        bvid: bvid.clone(),
        upper_name,
        episode_number: None,
        ep_id: None,
    }
}

/// What a notification says of a video by its listing.
pub fn brief(info: &VideoInfo) -> (brief: VideoBrief)
    ensures
        brief@ == brief_of(*info),
{
    match info {
        VideoInfo::Detail { title, bvid, upper_name } => plain_brief(
            title,
            bvid,
            upper_name.clone(),
        ),
        VideoInfo::Favorite { title, bvid, upper_name } => plain_brief(
            title,
            bvid,
            upper_name.clone(),
        ),
        VideoInfo::Collection { title, bvid, author_name } => {
            let upper_name = match author_name {
                Some(name) => name.clone(),
                None => "未知".to_owned(),
            };
            plain_brief(title, bvid, upper_name)
        },
        VideoInfo::WatchLater { title, bvid, upper_name } => plain_brief(
            title,
            bvid,
            upper_name.clone(),
        ),
        VideoInfo::Submission { title, bvid } => plain_brief(title, bvid, "未知".to_owned()),
        VideoInfo::Bangumi { title, bvid, episode_number, ep_id } => VideoBrief {
            title: title.clone(),
            bvid: bvid.clone(),
            upper_name: "番剧".to_owned(),
            episode_number: *episode_number,
            ep_id: Some(ep_id.clone()),
        },
    }
}

/// What a batch of briefs says.
pub open spec fn briefs_view(briefs: Seq<VideoBrief>) -> Seq<BriefView> {
    briefs.map_values(|b: VideoBrief| b@)
}

/// What notifications say of a batch of videos.
pub fn briefs(infos: &Vec<VideoInfo>) -> (list: Vec<VideoBrief>)
    ensures
        briefs_view(list@) == infos@.map_values(|info: VideoInfo| brief_of(info)),
{
    let mut list: Vec<VideoBrief> = Vec::new();
    let mut k: usize = 0;
    while k < infos.len()
        invariant
            k <= infos@.len(),
            list@.len() == k,
            forall|i: int| 0 <= i < k ==> (#[trigger] list@[i])@ == brief_of(infos@[i]),
        decreases infos@.len() - k,
    {
        list.push(brief(&infos[k]));
        k += 1;
    }
    assert(briefs_view(list@) =~= infos@.map_values(|info: VideoInfo| brief_of(info)));
    list
}

/// A video that was just recorded.
#[derive(Debug, Clone)]
pub struct RecordedVideo {
    pub id: i32,
    pub bvid: String,
    pub source_type: Option<i32>,
    pub ep_id: Option<String>,
    pub episode_number: Option<i32>,
    pub pubtime: Moment,
}

/// The brief is that of the recorded video: an episode of a series is recognised by its episode
/// id, anything else by its video id.
pub open spec fn describes(brief: BriefView, video: RecordedVideo) -> bool {
    if video.source_type == Some(SOURCE_TYPE_BANGUMI) && video.ep_id is Some {
        brief.ep_id == Some(video.ep_id->0@)
    } else {
        brief.bvid == video.bvid@
    }
}

fn is_described_by(brief: &VideoBrief, video: &RecordedVideo) -> (answer: bool)
    ensures
        answer == describes(brief@, *video),
{
    if let (Some(kind), Some(wanted)) = (video.source_type, &video.ep_id) {
        if kind == SOURCE_TYPE_BANGUMI {
            return match &brief.ep_id {
                Some(own) => same_text(own.as_str(), wanted.as_str()),
                None => false,
            };
        }
    }
    same_text(brief.bvid.as_str(), video.bvid.as_str())
}

/// The first brief that is that of the recorded video.
pub open spec fn first_brief(briefs: Seq<BriefView>, video: RecordedVideo) -> Option<BriefView>
    decreases briefs.len(),
{
    if briefs.len() == 0 {
        None
    } else if describes(briefs[0], video) {
        Some(briefs[0])
    } else {
        first_brief(briefs.drop_first(), video)
    }
}

/// What is reported of a new video, as plain text.
pub struct NewVideoView {
    pub title: Seq<char>,
    pub bvid: Seq<char>,
    pub upper_name: Seq<char>,
    pub source_type: Seq<char>,
    pub source_name: Seq<char>,
    pub pubtime: Option<Seq<char>>,
    pub episode_number: Option<i32>,
    pub season_number: Option<i32>,
    pub video_id: Option<i32>,
}

impl View for NewVideoInfo {
    type V = NewVideoView;

    open spec fn view(&self) -> NewVideoView {
        NewVideoView {
            title: self.title@,
            bvid: self.bvid@,
            upper_name: self.upper_name@,
            source_type: self.source_type@,
            source_name: self.source_name@,
            pubtime: text_option(self.pubtime),
            episode_number: self.episode_number,
            season_number: self.season_number,
            video_id: self.video_id,
        }
    }
}

/// What is reported of a recorded video by its brief.
pub open spec fn news_of(
    brief: BriefView,
    video: RecordedVideo,
    source_type: Seq<char>,
    source_name: Seq<char>,
    pubtime: Option<Seq<char>>,
) -> NewVideoView {
    NewVideoView {
        title: brief.title,
        bvid: video.bvid@,
        upper_name: brief.upper_name,
        source_type,
        source_name,
        pubtime,
        episode_number: if brief.episode_number is Some {
            brief.episode_number
        } else {
            video.episode_number
        },
        season_number: None,
        video_id: Some(video.id),
    }
}

/// What is reported of the recorded videos, in their order. A video without a brief is passed
/// over. `times` are the texts of their publication times.
pub open spec fn news(
    briefs: Seq<BriefView>,
    videos: Seq<RecordedVideo>,
    times: Seq<Option<Seq<char>>>,
    source_type: Seq<char>,
    source_name: Seq<char>,
) -> Seq<NewVideoView>
    decreases videos.len(),
{
    if videos.len() == 0 {
        Seq::empty()
    } else {
        let before = news(briefs, videos.drop_last(), times.drop_last(), source_type, source_name);
        match first_brief(briefs, videos.last()) {
            Some(brief) => before.push(
                news_of(brief, videos.last(), source_type, source_name, times.last()),
            ),
            None => before,
        }
    }
}

/// What a list of reported videos says.
pub open spec fn news_view(list: Seq<NewVideoInfo>) -> Seq<NewVideoView> {
    list.map_values(|v: NewVideoInfo| v@)
}

fn find_brief(briefs: &Vec<VideoBrief>, video: &RecordedVideo) -> (at: Option<usize>)
    ensures
        at is Some <==> first_brief(briefs_view(briefs@), *video) is Some,
        at matches Some(i) ==> i < briefs@.len() && first_brief(briefs_view(briefs@), *video)
            == Some(briefs@[i as int]@),
{
    let ghost all = briefs_view(briefs@);
    let mut k: usize = 0;
    assert(all.skip(0) =~= all);
    while k < briefs.len()
        invariant
            k <= briefs@.len(),
            all == briefs_view(briefs@),
            first_brief(all, *video) == first_brief(all.skip(k as int), *video),
        decreases briefs@.len() - k,
    {
        assert(all.skip(k as int)[0] == briefs@[k as int]@);
        if is_described_by(&briefs[k], video) {
            return Some(k);
        }
        assert(all.skip(k as int).drop_first() =~= all.skip(k + 1));
        k += 1;
    }
    None
}

/// What is reported of one recorded video by its brief.
pub fn news_from(
    brief: &VideoBrief,
    video: &RecordedVideo,
    source_type: &str,
    source_name: &str,
    pubtime: Option<String>,
) -> (info: NewVideoInfo)
    ensures
        info@ == news_of(brief@, *video, source_type@, source_name@, text_option(pubtime)),
        info.pubtime is Some <==> pubtime is Some,
{
    NewVideoInfo {
        title: brief.title.clone(),
        bvid: video.bvid.clone(),
        upper_name: brief.upper_name.clone(),
        source_type: source_type.to_owned(),
        source_name: source_name.to_owned(),
        pubtime,
        episode_number: match brief.episode_number {
            Some(number) => Some(number),
            None => video.episode_number,
        },
        season_number: None,
        video_id: Some(video.id),
    }
}

/// The texts of the publication times.
pub open spec fn pubtimes(videos: Seq<RecordedVideo>) -> Seq<Option<Seq<char>>> {
    videos.map_values(|v: RecordedVideo| utc_text(v.pubtime, row_format()))
}

/// What is reported of the videos that were just recorded, by the briefs of their batch.
pub fn collect_news(
    briefs: &Vec<VideoBrief>,
    videos: &Vec<RecordedVideo>,
    source_type: &str,
    source_name: &str,
) -> (list: Vec<NewVideoInfo>)
    ensures
        news_view(list@) == news(
            briefs_view(briefs@),
            videos@,
            pubtimes(videos@),
            source_type@,
            source_name@,
        ),
        (forall|i: int| 0 <= i < videos@.len() ==> in_calendar((#[trigger] videos@[i]).pubtime))
            ==> forall|i: int| 0 <= i < list@.len() ==> (#[trigger] list@[i]).pubtime is Some,
{
    let mut list: Vec<NewVideoInfo> = Vec::new();
    let mut k: usize = 0;
    assert(news_view(list@) =~= Seq::empty());
    while k < videos.len()
        invariant
            k <= videos@.len(),
            news_view(list@) == news(
                briefs_view(briefs@),
                videos@.take(k as int),
                pubtimes(videos@).take(k as int),
                source_type@,
                source_name@,
            ),
            (forall|i: int| 0 <= i < videos@.len() ==> in_calendar((#[trigger] videos@[i]).pubtime))
                ==> forall|i: int| 0 <= i < list@.len() ==> (#[trigger] list@[i]).pubtime is Some,
        decreases videos@.len() - k,
    {
        let video = &videos[k];
        proof {
            let times = pubtimes(videos@);
            assert(videos@.take(k + 1).drop_last() =~= videos@.take(k as int));
            assert(times.take(k + 1).drop_last() =~= times.take(k as int));
        }
        if let Some(at) = find_brief(briefs, video) {
            let pubtime = format_utc(video.pubtime, "%Y-%m-%d %H:%M:%S");
            let ghost before = list@;
            list.push(news_from(&briefs[at], video, source_type, source_name, pubtime));
            assert(news_view(list@) =~= news_view(before).push(list@[before.len() as int]@));
        }
        k += 1;
    }
    assert(videos@.take(videos@.len() as int) =~= videos@);
    assert(pubtimes(videos@).take(videos@.len() as int) =~= pubtimes(videos@));
    list
}

/// How long ago a video may have been recorded to count as just recorded, in seconds.
pub const RECENT_SECONDS: i64 = 10;

/// The recorded time from which on a video counts as just recorded, in Beijing time.
pub fn recent_threshold(now: Moment) -> (row: Option<String>)
    requires
        now.seconds >= i64::MIN + RECENT_SECONDS,
        now.nanos < 1000000000,
    ensures
        in_calendar((Moment { seconds: (now.seconds - RECENT_SECONDS) as i64, nanos: now.nanos }))
            ==> row is Some,
        text_option(row) == offset_text(
            (Moment { seconds: (now.seconds - RECENT_SECONDS) as i64, nanos: now.nanos }),
            BEIJING_OFFSET,
            row_format(),
        ),
{
    format_at_offset(
        Moment { seconds: now.seconds - RECENT_SECONDS, nanos: now.nanos },
        BEIJING_OFFSET,
        "%Y-%m-%d %H:%M:%S",
    )
}

/// The number of listed videos that are recorded at a time.
pub const REFRESH_BATCH: usize = 10;

/// What is to be done next while the list of a source is read.
#[derive(Debug, Clone, Copy, PartialEq, Eq, Structural)]
pub enum RefreshStep {
    /// Read one more entry. `held` videos wait to be recorded.
    Read { held: usize },
    /// Record the videos that wait, `count` of them. The list is not read any further if `last` is
    /// set.
    Record { count: usize, last: bool },
    /// Nothing more is read.
    Finish,
}

/// What came of a step.
#[derive(Debug, Clone, Copy, PartialEq, Eq, Structural)]
pub enum RefreshReport {
    /// An entry was read. `taken` says whether it is a new video; it is not set where there was no
    /// entry.
    Entry { taken: bool },
    /// The videos were recorded.
    Recorded,
    /// Tasks are paused or cancelled, so that nothing was recorded.
    Halted,
}

/// The first step.
pub open spec fn first_refresh_step() -> RefreshStep {
    RefreshStep::Read { held: 0 }
}

/// The step that follows another. Videos are recorded when there are enough of them, and when the
/// list is not read any further.
pub open spec fn next_refresh_step(step: RefreshStep, report: RefreshReport) -> RefreshStep {
    match (step, report) {
        (RefreshStep::Read { held }, RefreshReport::Entry { taken: true }) => if held + 1
            < REFRESH_BATCH {
            RefreshStep::Read { held: (held + 1) as usize }
        } else {
            RefreshStep::Record { count: REFRESH_BATCH, last: false }
        },
        (RefreshStep::Read { held }, RefreshReport::Entry { taken: false }) => if held > 0 {
            RefreshStep::Record { count: held, last: true }
        } else {
            RefreshStep::Finish
        },
        (RefreshStep::Record { count, last }, RefreshReport::Recorded) => if last {
            RefreshStep::Finish
        } else {
            RefreshStep::Read { held: 0 }
        },
        _ => RefreshStep::Finish,
    }
}

/// The first step of reading a list.
pub fn start_refresh() -> (step: RefreshStep)
    ensures
        step == first_refresh_step(),
{
    RefreshStep::Read { held: 0 }
}

/// The step that follows another, by what came of it.
pub fn advance_refresh(step: RefreshStep, report: RefreshReport) -> (next: RefreshStep)
    ensures
        next == next_refresh_step(step, report),
{
    match (step, report) {
        (RefreshStep::Read { held }, RefreshReport::Entry { taken: true }) => {
            if held < REFRESH_BATCH - 1 {
                RefreshStep::Read { held: held + 1 }
            } else {
                RefreshStep::Record { count: REFRESH_BATCH, last: false }
            }
        },
        (RefreshStep::Read { held }, RefreshReport::Entry { taken: false }) => {
            if held > 0 {
                RefreshStep::Record { count: held, last: true }
            } else {
                RefreshStep::Finish
            }
        },
        (RefreshStep::Record { count: _, last }, RefreshReport::Recorded) => {
            if last {
                RefreshStep::Finish
            } else {
                RefreshStep::Read { held: 0 }
            }
        },
        _ => RefreshStep::Finish,
    }
}

/// The step that is reached by what came of all steps so far.
pub open spec fn refresh_step_after(reports: Seq<RefreshReport>) -> RefreshStep
    decreases reports.len(),
{
    if reports.len() == 0 {
        first_refresh_step()
    } else {
        next_refresh_step(refresh_step_after(reports.drop_last()), reports.last())
    }
}

/// Each step was carried out: entries were read where one was to be read, and videos recorded where
/// they were to be recorded.
pub open spec fn was_carried_out(reports: Seq<RefreshReport>) -> bool
    decreases reports.len(),
{
    reports.len() > 0 ==> was_carried_out(reports.drop_last()) && match refresh_step_after(
        reports.drop_last(),
    ) {
        RefreshStep::Read { held } => reports.last() is Entry,
        RefreshStep::Record { count, last } => reports.last() == RefreshReport::Recorded,
        RefreshStep::Finish => false,
    }
}

/// The number of new videos that were read.
pub open spec fn videos_taken(reports: Seq<RefreshReport>) -> nat
    decreases reports.len(),
{
    if reports.len() == 0 {
        0
    } else {
        videos_taken(reports.drop_last()) + if reports.last() == (RefreshReport::Entry {
            taken: true,
        }) {
            1nat
        } else {
            0nat
        }
    }
}

/// The number of videos that were recorded.
pub open spec fn videos_recorded(reports: Seq<RefreshReport>) -> nat
    decreases reports.len(),
{
    if reports.len() == 0 {
        0
    } else {
        videos_recorded(reports.drop_last()) + match refresh_step_after(reports.drop_last()) {
            RefreshStep::Record { count, last } => count as nat,
            _ => 0nat,
        }
    }
}

/// The number of videos that wait to be recorded.
pub open spec fn videos_held(step: RefreshStep) -> nat {
    match step {
        RefreshStep::Read { held } => held as nat,
        RefreshStep::Record { count, last } => count as nat,
        RefreshStep::Finish => 0,
    }
}

/// Every new video is recorded: at each step, what was taken was recorded or waits for it, and
/// nothing waits at the end. No batch is empty or larger than allowed.
pub proof fn taken_videos_are_recorded(reports: Seq<RefreshReport>)
    requires
        was_carried_out(reports),
    ensures
        videos_taken(reports) == videos_recorded(reports) + videos_held(
            refresh_step_after(reports),
        ),
        refresh_step_after(reports) matches RefreshStep::Read { held } ==> held < REFRESH_BATCH,
        refresh_step_after(reports) matches RefreshStep::Record { count, last } ==> 0 < count
            <= REFRESH_BATCH,
        refresh_step_after(reports) == RefreshStep::Finish ==> videos_taken(reports)
            == videos_recorded(reports),
    decreases reports.len(),
{
    if reports.len() > 0 {
        taken_videos_are_recorded(reports.drop_last());
    }
}

/// What a list that was read has brought.
#[verifier::ext_equal]
pub struct TallyView {
    /// The number of new rows.
    pub count: nat,
    /// The last batch brought new rows.
    pub grew: bool,
    /// What is reported of the new videos.
    pub news: Seq<NewVideoView>,
}

/// What the list has brought when a batch was recorded that took the number of rows from `before` to
/// `after`.
pub open spec fn with_rows(tally: TallyView, before: nat, after: nat) -> TallyView {
    TallyView {
        count: (tally.count + (after - before)) as nat,
        grew: after > before,
        news: tally.news,
    }
}

/// What the list has brought when the videos of a batch were reported. Nothing is reported of a
/// batch that brought no new rows.
pub open spec fn with_news(tally: TallyView, list: Seq<NewVideoView>) -> TallyView {
    TallyView {
        news: if tally.grew {
            tally.news + list
        } else {
            tally.news
        },
        ..tally
    }
}

/// Counts the new videos of a source, and gathers what is reported of them.
#[derive(Debug)]
pub struct RefreshTally {
    count: usize,
    grew: bool,
    news: Vec<NewVideoInfo>,
}

impl View for RefreshTally {
    type V = TallyView;

    closed spec fn view(&self) -> TallyView {
        TallyView { count: self.count as nat, grew: self.grew, news: news_view(self.news@) }
    }
}

impl RefreshTally {
    /// Before anything is recorded.
    pub fn new() -> (tally: Self)
        ensures
            tally@ == (TallyView { count: 0, grew: false, news: Seq::empty() }),
    {
        let tally = RefreshTally { count: 0, grew: false, news: Vec::new() };
        assert(news_view(tally.news@) =~= Seq::empty());
        tally
    }

    /// The number of new videos so far.
    pub fn count(&self) -> (count: usize)
        ensures
            count == self@.count,
    {
        self.count
    }

    /// Counts a batch that took the number of rows from `before` to `after`. The answer says whether
    /// there is something to report.
    pub fn count_rows(&mut self, before: usize, after: usize) -> (grew: bool)
        requires
            before <= after,
            old(self)@.count + (after - before) <= usize::MAX,
        ensures
            final(self)@ == with_rows(old(self)@, before as nat, after as nat),
            grew == final(self)@.grew,
    {
        self.count = self.count + (after - before);
        self.grew = after > before;
        self.grew
    }

    /// Reports the videos of the batch that was counted last, by their briefs. `videos` are those
    /// that were just recorded.
    pub fn report(
        &mut self,
        briefs: &Vec<VideoBrief>,
        videos: &Vec<RecordedVideo>,
        source_type: &str,
        source_name: &str,
    )
        ensures
            final(self)@ == with_news(
                old(self)@,
                news(
                    briefs_view(briefs@),
                    videos@,
                    pubtimes(videos@),
                    source_type@,
                    source_name@,
                ),
            ),
    {
        if self.grew {
            let mut list = collect_news(briefs, videos, source_type, source_name);
            let ghost before = self.news@;
            let ghost added = list@;
            self.news.append(&mut list);
            assert(news_view(self.news@) =~= news_view(before) + news_view(added));
        }
    }

    /// The number of new videos, and what is reported of them.
    pub fn finish(self) -> (found: (usize, Vec<NewVideoInfo>))
        ensures
            found.0 == self@.count,
            news_view(found.1@) == self@.news,
    {
        (self.count, self.news)
    }
}

/// A batch that was recorded.
pub struct RecordedBatch {
    /// The number of rows before.
    pub before: nat,
    /// The number of rows after.
    pub after: nat,
    /// What its videos look like in a report.
    pub list: Seq<NewVideoView>,
}

/// What a list has brought after these batches.
pub open spec fn tally_of(batches: Seq<RecordedBatch>) -> TallyView
    decreases batches.len(),
{
    if batches.len() == 0 {
        TallyView { count: 0, grew: false, news: Seq::empty() }
    } else {
        let last = batches.last();
        with_news(
            with_rows(tally_of(batches.drop_last()), last.before, last.after),
            last.list,
        )
    }
}

/// Nothing is reported unless there are new rows. Where nobody else adds or removes rows, the number
/// of new videos is that of the rows that were added in all.
pub proof fn new_videos_are_new_rows(batches: Seq<RecordedBatch>)
    requires
        forall|i: int|
            0 <= i < batches.len() ==> (#[trigger] batches[i]).before <= batches[i].after,
    ensures
        tally_of(batches).count == 0 ==> tally_of(batches).news.len() == 0,
        batches.len() > 0 && (forall|i: int|
            0 < i < batches.len() ==> (#[trigger] batches[i]).before == batches[i - 1].after)
            ==> tally_of(batches).count == batches.last().after - batches[0].before,
    decreases batches.len(),
{
    if batches.len() > 0 {
        let front = batches.drop_last();
        let end = batches.len() - 1;
        assert forall|i: int| 0 <= i < front.len() implies (#[trigger] front[i]).before
            <= front[i].after by {
            assert(batches[i].before <= batches[i].after);
        }
        new_videos_are_new_rows(front);
        assert(batches[end].before <= batches[end].after);
        if front.len() > 0 && (forall|i: int|
            0 < i < batches.len() ==> (#[trigger] batches[i]).before == batches[i - 1].after) {
            assert forall|i: int| 0 < i < front.len() implies (#[trigger] front[i]).before
                == front[i - 1].after by {
                assert(batches[i].before == batches[i - 1].after);
            }
            assert(batches[end].before == batches[end - 1].after);
            assert(front[0] == batches[0]);
        }
    }
}

/// The report is that of the recorded video.
pub open spec fn reports(report: NewVideoView, video: RecordedVideo) -> bool {
    &&& report.video_id == Some(video.id)
    &&& report.bvid == video.bvid@
    &&& report.season_number is None
}

/// Everything that is reported is a video that was recorded.
pub proof fn news_are_of_recorded_videos(
    briefs: Seq<BriefView>,
    videos: Seq<RecordedVideo>,
    times: Seq<Option<Seq<char>>>,
    source_type: Seq<char>,
    source_name: Seq<char>,
    at: int,
)
    requires
        0 <= at < news(briefs, videos, times, source_type, source_name).len(),
    ensures
        exists|i: int|
            0 <= i < videos.len() && reports(
                news(briefs, videos, times, source_type, source_name)[at],
                #[trigger] videos[i],
            ),
    decreases videos.len(),
{
    if videos.len() > 0 {
        let front = videos.drop_last();
        let before = news(briefs, front, times.drop_last(), source_type, source_name);
        let all = news(briefs, videos, times, source_type, source_name);
        if at < before.len() {
            news_are_of_recorded_videos(
                briefs,
                front,
                times.drop_last(),
                source_type,
                source_name,
                at,
            );
            let i = choose|i: int| 0 <= i < front.len() && reports(before[at], #[trigger] front[i]);
            assert(reports(all[at], videos[i]));
        } else {
            assert(reports(all[at], videos[videos.len() - 1]));
        }
    }
}

/// What a notification says of a video is what its listing says: the title and the number of the
/// video, each from its own place, whatever kind of source lists it.
pub proof fn brief_repeats_the_listing(info: VideoInfo)
    ensures
        ({
            let brief = brief_of(info);
            match info {
                VideoInfo::Detail { title, bvid, upper_name } => brief.title == title@ && brief.bvid
                    == bvid@ && brief.upper_name == upper_name@,
                VideoInfo::Favorite { title, bvid, upper_name } => brief.title == title@
                    && brief.bvid == bvid@ && brief.upper_name == upper_name@,
                VideoInfo::Collection { title, bvid, author_name } => brief.title == title@
                    && brief.bvid == bvid@ && (author_name matches Some(name) ==> brief.upper_name
                    == name@),
                VideoInfo::WatchLater { title, bvid, upper_name } => brief.title == title@
                    && brief.bvid == bvid@ && brief.upper_name == upper_name@,
                VideoInfo::Submission { title, bvid } => brief.title == title@ && brief.bvid
                    == bvid@,
                VideoInfo::Bangumi { title, bvid, episode_number, ep_id } => brief.title == title@
                    && brief.bvid == bvid@ && brief.episode_number == episode_number && brief.ep_id
                    == Some(ep_id@),
            }
        }),
{
}

/// Only an episode of a series has the number of an episode; where the listing names no creator, the
/// notification says so.
pub proof fn brief_fills_gaps(info: VideoInfo)
    ensures
        info is Bangumi <==> brief_of(info).ep_id is Some,
        !(info is Bangumi) ==> brief_of(info).episode_number is None,
        info is Bangumi ==> brief_of(info).upper_name == "番剧"@,
        info is Submission ==> brief_of(info).upper_name == "未知"@,
        (info matches VideoInfo::Collection { title, bvid, author_name } && author_name is None)
            ==> brief_of(info).upper_name == "未知"@,
{
}

/// The number of a listed video.
pub open spec fn listed_bvid(info: VideoInfo) -> Seq<char> {
    match info {
        VideoInfo::Detail { bvid, .. } => bvid@,
        VideoInfo::Favorite { bvid, .. } => bvid@,
        VideoInfo::Collection { bvid, .. } => bvid@,
        VideoInfo::WatchLater { bvid, .. } => bvid@,
        VideoInfo::Submission { bvid, .. } => bvid@,
        VideoInfo::Bangumi { bvid, .. } => bvid@,
    }
}

/// The title of a listed video.
pub open spec fn listed_title(info: VideoInfo) -> Seq<char> {
    match info {
        VideoInfo::Detail { title, .. } => title@,
        VideoInfo::Favorite { title, .. } => title@,
        VideoInfo::Collection { title, .. } => title@,
        VideoInfo::WatchLater { title, .. } => title@,
        VideoInfo::Submission { title, .. } => title@,
        VideoInfo::Bangumi { title, .. } => title@,
    }
}

/// An episode of a series is recognised by the number of the episode, and by that alone; any other
/// video by its own number, and by that alone.
pub proof fn videos_are_recognised(brief: BriefView, video: RecordedVideo)
    ensures
        (video.source_type == Some(1i32) && video.ep_id is Some) ==> (describes(brief, video) <==> (
        brief.ep_id matches Some(own) && own == video.ep_id->0@)),
        (video.source_type != Some(1i32) || video.ep_id is None) ==> (describes(brief, video) <==>
            brief.bvid == video.bvid@),
{
}

/// A recorded video is described by the first brief that is its own.
pub proof fn first_brief_is_first(briefs: Seq<BriefView>, video: RecordedVideo)
    ensures
        first_brief(briefs, video) is None <==> forall|i: int|
            0 <= i < briefs.len() ==> !describes(#[trigger] briefs[i], video),
        forall|at: int|
            0 <= at < briefs.len() && describes(#[trigger] briefs[at], video) && (forall|i: int|
                0 <= i < at ==> !describes(#[trigger] briefs[i], video)) ==> first_brief(
                briefs,
                video,
            ) == Some(briefs[at]),
    decreases briefs.len(),
{
    if briefs.len() > 0 {
        let rest = briefs.drop_first();
        first_brief_is_first(rest, video);
        if describes(briefs[0], video) {
            assert(first_brief(briefs, video) == Some(briefs[0]));
        } else {
            assert forall|i: int| 0 <= i < rest.len() implies rest[i] == #[trigger] briefs[i + 1] by {}
            if first_brief(briefs, video) is None {
                assert forall|i: int| 0 <= i < briefs.len() implies !describes(
                    #[trigger] briefs[i],
                    video,
                ) by {
                    if i > 0 {
                        assert(!describes(rest[i - 1], video));
                    }
                }
            }
            if forall|i: int| 0 <= i < briefs.len() ==> !describes(#[trigger] briefs[i], video) {
                assert forall|i: int| 0 <= i < rest.len() implies !describes(
                    #[trigger] rest[i],
                    video,
                ) by {
                    assert(!describes(briefs[i + 1], video));
                }
            }
            assert forall|at: int|
                0 <= at < briefs.len() && describes(#[trigger] briefs[at], video) && (forall|i: int|
                    0 <= i < at ==> !describes(#[trigger] briefs[i], video)) implies first_brief(
                briefs,
                video,
            ) == Some(briefs[at]) by {
                assert(describes(rest[at - 1], video));
                assert forall|i: int| 0 <= i < at - 1 implies !describes(
                    #[trigger] rest[i],
                    video,
                ) by {
                    assert(!describes(briefs[i + 1], video));
                }
            }
        }
    }
}

/// Every recorded video that a brief describes is reported, by the first such brief; and so many
/// videos are reported as are described.
proof fn described_videos_are_reported(
    briefs: Seq<BriefView>,
    videos: Seq<RecordedVideo>,
    times: Seq<Option<Seq<char>>>,
    source_type: Seq<char>,
    source_name: Seq<char>,
    at: int,
)
    requires
        0 <= at < videos.len() == times.len(),
        first_brief(briefs, videos[at]) is Some,
    ensures
        news(briefs, videos, times, source_type, source_name).contains(
            news_of(
                first_brief(briefs, videos[at])->0,
                videos[at],
                source_type,
                source_name,
                times[at],
            ),
        ),
    decreases videos.len(),
{
    let front = videos.drop_last();
    let before = news(briefs, front, times.drop_last(), source_type, source_name);
    let all = news(briefs, videos, times, source_type, source_name);
    let entry = news_of(
        first_brief(briefs, videos[at])->0,
        videos[at],
        source_type,
        source_name,
        times[at],
    );
    if at < front.len() {
        assert(front[at] == videos[at]);
        assert(times.drop_last()[at] == times[at]);
        described_videos_are_reported(
            briefs,
            front,
            times.drop_last(),
            source_type,
            source_name,
            at,
        );
        let k = choose|k: int| 0 <= k < before.len() && before[k] == entry;
        assert(all[k] == entry);
    } else {
        assert(all[before.len() as int] == entry);
    }
}

/// What is reported of the recorded videos by the list of their source.
pub open spec fn news_for(
    infos: Seq<VideoInfo>,
    videos: Seq<RecordedVideo>,
    source_type: Seq<char>,
    source_name: Seq<char>,
) -> Seq<NewVideoView> {
    news(
        infos.map_values(|info: VideoInfo| brief_of(info)),
        videos,
        pubtimes(videos),
        source_type,
        source_name,
    )
}

/// A recorded video that was listed is reported: under the title of its listing, with its own number,
/// its place in the records, the source, and the time of its publication.
pub proof fn listed_videos_are_reported(
    infos: Seq<VideoInfo>,
    videos: Seq<RecordedVideo>,
    source_type: Seq<char>,
    source_name: Seq<char>,
    listed: int,
    at: int,
) -> (k: int)
    requires
        0 <= listed < infos.len(),
        0 <= at < videos.len(),
        videos[at].source_type != Some(1i32) || videos[at].ep_id is None,
        listed_bvid(infos[listed]) == videos[at].bvid@,
        forall|i: int|
            0 <= i < listed ==> listed_bvid(#[trigger] infos[i]) != videos[at].bvid@,
    ensures
        0 <= k < news_for(infos, videos, source_type, source_name).len(),
        is_report_of(
            news_for(infos, videos, source_type, source_name)[k],
            listed_title(infos[listed]),
            videos[at],
            source_type,
            source_name,
        ),
        news_for(infos, videos, source_type, source_name)[k].upper_name == brief_of(
            infos[listed],
        ).upper_name,
        !(infos[listed] is Bangumi) ==> news_for(
            infos,
            videos,
            source_type,
            source_name,
        )[k].episode_number == videos[at].episode_number,
{
    let all_briefs = infos.map_values(|info: VideoInfo| brief_of(info));
    let video = videos[at];
    first_brief_is_first(all_briefs, video);
    brief_repeats_the_listing(infos[listed]);
    assert(describes(all_briefs[listed], video));
    assert forall|i: int| 0 <= i < listed implies !describes(#[trigger] all_briefs[i], video) by {
        brief_repeats_the_listing(infos[i]);
        assert(listed_bvid(infos[i]) != video.bvid@);
    }
    assert(first_brief(all_briefs, video) == Some(all_briefs[listed]));
    described_videos_are_reported(
        all_briefs,
        videos,
        pubtimes(videos),
        source_type,
        source_name,
        at,
    );
    let list = news(all_briefs, videos, pubtimes(videos), source_type, source_name);
    let entry = news_of(
        all_briefs[listed],
        video,
        source_type,
        source_name,
        pubtimes(videos)[at],
    );
    let k = choose|k: int| 0 <= k < list.len() && list[k] == entry;
    brief_fills_gaps(infos[listed]);
    assert(is_report_of(list[k], listed_title(infos[listed]), video, source_type, source_name));
    k
}

/// The report shows the recorded video under this title, as one of this source.
pub open spec fn is_report_of(
    report: NewVideoView,
    title: Seq<char>,
    video: RecordedVideo,
    source_type: Seq<char>,
    source_name: Seq<char>,
) -> bool {
    &&& report.title == title
    &&& report.bvid == video.bvid@
    &&& report.video_id == Some(video.id)
    &&& report.source_type == source_type
    &&& report.source_name == source_name
    &&& report.pubtime == utc_text(video.pubtime, "%Y-%m-%d %H:%M:%S"@)
}

/// A recorded episode of a series that was listed is reported under the title of its listing and with
/// the number of the episode: that of the listing, or else the recorded one.
pub proof fn listed_episodes_are_reported(
    infos: Seq<VideoInfo>,
    videos: Seq<RecordedVideo>,
    source_type: Seq<char>,
    source_name: Seq<char>,
    listed: int,
    at: int,
) -> (k: int)
    requires
        0 <= listed < infos.len(),
        0 <= at < videos.len(),
        videos[at].source_type == Some(1i32),
        is_episode(infos[listed], videos[at]),
        forall|i: int| 0 <= i < listed ==> !is_episode(#[trigger] infos[i], videos[at]),
    ensures
        0 <= k < news_for(infos, videos, source_type, source_name).len(),
        is_report_of(
            news_for(infos, videos, source_type, source_name)[k],
            listed_title(infos[listed]),
            videos[at],
            source_type,
            source_name,
        ),
        news_for(infos, videos, source_type, source_name)[k].episode_number
            == if infos[listed]->episode_number is Some {
            infos[listed]->episode_number
        } else {
            videos[at].episode_number
        },
{
    let all_briefs = infos.map_values(|info: VideoInfo| brief_of(info));
    let video = videos[at];
    first_brief_is_first(all_briefs, video);
    brief_repeats_the_listing(infos[listed]);
    assert(describes(all_briefs[listed], video));
    assert forall|i: int| 0 <= i < listed implies !describes(#[trigger] all_briefs[i], video) by {
        brief_repeats_the_listing(infos[i]);
        brief_fills_gaps(infos[i]);
        assert(!is_episode(infos[i], video));
    }
    assert(first_brief(all_briefs, video) == Some(all_briefs[listed]));
    described_videos_are_reported(
        all_briefs,
        videos,
        pubtimes(videos),
        source_type,
        source_name,
        at,
    );
    let list = news(all_briefs, videos, pubtimes(videos), source_type, source_name);
    let entry = news_of(
        all_briefs[listed],
        video,
        source_type,
        source_name,
        pubtimes(videos)[at],
    );
    let k = choose|k: int| 0 <= k < list.len() && list[k] == entry;
    assert(is_report_of(list[k], listed_title(infos[listed]), video, source_type, source_name));
    k
}

/// The listing is that of the recorded episode.
pub open spec fn is_episode(info: VideoInfo, video: RecordedVideo) -> bool {
    info matches VideoInfo::Bangumi { title, bvid, episode_number, ep_id } && video.ep_id matches Some(
        own,
    ) && own@ == ep_id@
}

/// No video is reported twice: no more is reported than was recorded, and a video that no brief
/// describes is not reported at all.
pub proof fn unlisted_videos_are_passed_over(
    briefs: Seq<BriefView>,
    videos: Seq<RecordedVideo>,
    times: Seq<Option<Seq<char>>>,
    source_type: Seq<char>,
    source_name: Seq<char>,
)
    ensures
        news(briefs, videos, times, source_type, source_name).len() <= videos.len(),
        (forall|i: int|
            0 <= i < videos.len() ==> first_brief(briefs, #[trigger] videos[i]) is None) ==> news(
            briefs,
            videos,
            times,
            source_type,
            source_name,
        ).len() == 0,
        (forall|i: int|
            0 <= i < videos.len() ==> first_brief(briefs, #[trigger] videos[i]) is Some) ==> news(
            briefs,
            videos,
            times,
            source_type,
            source_name,
        ).len() == videos.len(),
    decreases videos.len(),
{
    if videos.len() > 0 {
        let front = videos.drop_last();
        unlisted_videos_are_passed_over(
            briefs,
            front,
            times.drop_last(),
            source_type,
            source_name,
        );
        assert forall|i: int| 0 <= i < front.len() implies front[i] == #[trigger] videos[i] by {}
        if forall|i: int| 0 <= i < videos.len() ==> first_brief(briefs, #[trigger] videos[i]) is None {
            assert forall|i: int| 0 <= i < front.len() implies first_brief(
                briefs,
                #[trigger] front[i],
            ) is None by {
                assert(first_brief(briefs, videos[i]) is None);
            }
            assert(first_brief(briefs, videos[videos.len() - 1]) is None);
        }
        if forall|i: int| 0 <= i < videos.len() ==> first_brief(briefs, #[trigger] videos[i]) is Some {
            assert forall|i: int| 0 <= i < front.len() implies first_brief(
                briefs,
                #[trigger] front[i],
            ) is Some by {
                assert(first_brief(briefs, videos[i]) is Some);
            }
            assert(first_brief(briefs, videos[videos.len() - 1]) is Some);
        }
    }
}

/// A video is taken exactly where the source wants it and the run was not cancelled; an entry that
/// cannot be read is never taken.
pub proof fn wanted_videos_are_taken(released: Moment, wanted: bool, message: String, cancelled: bool)
    ensures
        takes(ListEntry::Video { released, wanted }, cancelled) <==> wanted && !cancelled,
        !takes(ListEntry::Failed(message), cancelled),
{
}

/// A failure that was met is kept, whatever is read after it: the list counts as read to its end
/// exactly where no entry failed. What comes after a cancellation leaves no trace.
pub proof fn failures_are_kept(start: Moment, entries: Seq<ListEntry>, late: ListEntry)
    ensures
        scan_of(start, entries).failure is None <==> forall|i: int|
            0 <= i < entries.len() ==> !(#[trigger] entries[i] is Failed),
        scan_after(scan_of(start, entries), late, true) == scan_of(start, entries),
        entries.len() > 0 ==> (entries.last() matches ListEntry::Failed(message) ==> scan_of(
            start,
            entries,
        ).failure == Some(message@)),
    decreases entries.len(),
{
    if entries.len() > 0 {
        let front = entries.drop_last();
        failures_are_kept(start, front, late);
        assert forall|i: int| 0 <= i < front.len() implies front[i] == #[trigger] entries[i] by {}
        if scan_of(start, entries).failure is None {
            assert forall|i: int| 0 <= i < entries.len() implies !(#[trigger] entries[i] is Failed) by {
                if i < front.len() {
                    assert(!(front[i] is Failed));
                }
            }
        }
        if forall|i: int| 0 <= i < entries.len() ==> !(#[trigger] entries[i] is Failed) {
            assert forall|i: int| 0 <= i < front.len() implies !(#[trigger] front[i] is Failed) by {
                assert(!(entries[i] is Failed));
            }
            assert(!(entries[entries.len() - 1] is Failed));
        }
    }
}

/// Reading goes on exactly while new videos come. Videos are recorded ten at a time; only the last
/// batch is smaller, and after it nothing more is read. A pause ends everything at once.
pub proof fn list_is_read_in_tens(held: usize, count: usize, last: bool)
    requires
        held < 10,
    ensures
        ({
            let taken = next_refresh_step(
                RefreshStep::Read { held },
                RefreshReport::Entry { taken: true },
            );
            &&& held < 9 ==> taken == (RefreshStep::Read { held: (held + 1) as usize })
            &&& held == 9 ==> taken == (RefreshStep::Record { count: 10, last: false })
        }),
        ({
            let ended = next_refresh_step(
                RefreshStep::Read { held },
                RefreshReport::Entry { taken: false },
            );
            &&& held == 0 ==> ended == RefreshStep::Finish
            &&& held > 0 ==> ended == (RefreshStep::Record { count: held, last: true })
        }),
        next_refresh_step(RefreshStep::Record { count, last: true }, RefreshReport::Recorded)
            == RefreshStep::Finish,
        next_refresh_step(RefreshStep::Record { count, last: false }, RefreshReport::Recorded) == (
        RefreshStep::Read { held: 0 }),
        next_refresh_step(RefreshStep::Record { count, last }, RefreshReport::Halted)
            == RefreshStep::Finish,
{
}

/// What is reported in all is what the batches report that brought new rows, in their order.
pub proof fn reports_add_up(batches: Seq<RecordedBatch>, next: RecordedBatch)
    ensures
        tally_of(Seq::empty()).news == Seq::<NewVideoView>::empty(),
        tally_of(batches.push(next)).news == tally_of(batches).news + if next.after > next.before {
            next.list
        } else {
            Seq::empty()
        },
        tally_of(Seq::empty()).count == 0,
        next.before <= next.after ==> tally_of(batches.push(next)).count == tally_of(batches).count
            + (next.after - next.before),
{
    assert(batches.push(next).drop_last() =~= batches);
    assert(tally_of(batches).news + Seq::<NewVideoView>::empty() =~= tally_of(batches).news);
}

/// Times are recorded in Beijing time, eight hours ahead, and a video counts as just recorded for ten
/// seconds.
pub proof fn times_are_those_of_beijing()
    ensures
        BEIJING_OFFSET == 8 * 60 * 60,
        RECENT_SECONDS == 10,
        row_format() == "%Y-%m-%d %H:%M:%S"@,
        epoch() == (Moment { seconds: 0, nanos: 0 }),
{
}

/// The time of the newest known video is recorded anew exactly if the list showed a newer one: then it
/// is the time of the newest video that was looked at, in Beijing time.
pub proof fn newer_times_are_recorded(start: Moment, entries: Seq<ListEntry>)
    ensures
        (forall|i: int|
            0 <= i < entries.len() ==> (#[trigger] entries[i] matches ListEntry::Video {
                released,
                wanted,
            } ==> !later(released, start))) ==> row_to_record(scan_of(start, entries), start)
            is None,
        scan_of(start, entries).newest != start ==> later(scan_of(start, entries).newest, start)
            && row_to_record(scan_of(start, entries), start) == offset_text(
            scan_of(start, entries).newest,
            28800,
            "%Y-%m-%d %H:%M:%S"@,
        ),
{
    newest_is_newest(start, entries);
    let newest = scan_of(start, entries).newest;
    if newest != start {
        let i = choose|i: int|
            0 <= i < entries.len() && is_released_at(#[trigger] entries[i], newest);
        assert(entries[i] matches ListEntry::Video { released, wanted } && released == newest);
        assert(later(newest, start) || later(start, newest));
    }
}

}
