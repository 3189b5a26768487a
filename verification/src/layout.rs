//! Where the files of a video go, and which of them are due.

use vstd::prelude::*;

use crate::decimal::{
    decimal_int, decimal_int_is_injective, decimal_reads_back, integer_text,
};
use crate::text::{chars_of, contains, occurs, same_text, texts};

verus! {

/// The folder that holds the pages of a series.
pub open spec fn season_folder() -> Seq<char> {
    "Season 01"@
}

/// The name of the folder that holds the pages of a series.
pub fn season_folder_name() -> (name: &'static str)
    ensures
        name@ == season_folder(),
{
    "Season 01"
}

/// The folder template gives every video a folder of its own: it shows the title, or a name that
/// is not merely that of the creator.
pub open spec fn names_each_video(template: Seq<char>) -> bool {
    occurs(template, "title"@) || (occurs(template, "name"@) && !occurs(template, "upper_name"@))
}

/// Whether folders have to be kept apart that get the same name.
pub fn needs_deduplication(template: &str) -> (answer: bool)
    ensures
        answer == names_each_video(template@),
{
    contains(template, "title") || (contains(template, "name") && !contains(
        template,
        "upper_name",
    ))
}

/// What decides about the files of a video.
#[derive(Debug, Clone, Copy)]
pub struct VideoTraits {
    /// The video has a single page.
    pub single_page: bool,
    /// The video comes from a collection.
    pub in_collection: bool,
    /// Videos with several pages are laid out as series.
    pub multi_page_as_series: bool,
    /// Collections are laid out as series.
    pub collection_as_series: bool,
}

/// The video is laid out as a series.
pub open spec fn as_series(video: VideoTraits) -> bool {
    (!video.single_page && video.multi_page_as_series) || (video.in_collection
        && video.collection_as_series)
}

/// Whether the video is laid out as a series: its pages go to a folder of the season, and what
/// describes the series stays in the folder above.
pub fn is_series(video: VideoTraits) -> (answer: bool)
    ensures
        answer == as_series(video),
{
    (!video.single_page && video.multi_page_as_series) || (video.in_collection
        && video.collection_as_series)
}

/// Reads whether a video has a single page, which has to be known before it is downloaded.
pub fn known_page_count(single_page: Option<bool>) -> (known: Result<bool, String>)
    ensures
        known is Ok <==> single_page is Some,
        known matches Ok(single) ==> single_page == Some(single),
        known matches Err(complaint) ==> complaint@ == "single_page is null"@,
{
    match single_page {
        Some(single) => Ok(single),
        None => Err("single_page is null".to_owned()),
    }
}

/// What the files that describe a video as a whole are named after.
#[derive(Debug, Clone, Copy, PartialEq, Eq, Structural)]
pub enum SeriesName {
    /// The folder of the video.
    Folder,
    /// What the folder template gives for the video.
    Template,
    /// The collection.
    Collection,
    /// Nothing: there are no such files.
    Nothing,
}

/// What the files that describe a video as a whole are named after.
pub open spec fn name_source(video: VideoTraits) -> SeriesName {
    if !video.single_page {
        if video.multi_page_as_series {
            SeriesName::Folder
        } else {
            SeriesName::Template
        }
    } else if video.in_collection && video.collection_as_series {
        SeriesName::Collection
    } else {
        SeriesName::Nothing
    }
}

/// What the files that describe a video as a whole are named after.
pub fn series_name(video: VideoTraits) -> (name: SeriesName)
    ensures
        name == name_source(video),
        name is Folder <==> !video.single_page && video.multi_page_as_series,
        name is Template <==> !video.single_page && !video.multi_page_as_series,
        name is Collection <==> video.single_page && video.in_collection
            && video.collection_as_series,
{
    if !video.single_page {
        if video.multi_page_as_series {
            SeriesName::Folder
        } else {
            SeriesName::Template
        }
    } else if video.in_collection && video.collection_as_series {
        SeriesName::Collection
    } else {
        SeriesName::Nothing
    }
}

/// The names of the files that describe a video as a whole.
#[derive(Debug, Clone)]
pub struct SeriesFiles {
    /// They stand in the folder above that of the season.
    pub above_season: bool,
    pub nfo: String,
    pub thumb: String,
    pub fanart: String,
}

/// The names of the files that describe a video as a whole. `name` is what they are named after.
pub fn series_files(video: VideoTraits, name: &str) -> (files: SeriesFiles)
    ensures
        files_are_named(files, as_series(video), name@),
{
    let above_season: bool = is_series(video);
    let nfo = if above_season {
        "tvshow.nfo".to_owned()
    } else {
        name.to_owned().concat(".nfo")
    };
    SeriesFiles {
        above_season,
        nfo,
        thumb: name.to_owned().concat("-thumb.jpg"),
        fanart: name.to_owned().concat("-fanart.jpg"),
    }
}

/// What is due of the five tasks of a video.
#[derive(Debug, Clone, Copy, PartialEq, Eq, Structural)]
pub struct VideoTasks {
    pub poster: bool,
    pub nfo: bool,
    pub upper_face: bool,
    pub upper_nfo: bool,
    pub pages: bool,
}

/// The poster of the video may be fetched: in a collection that is laid out as a series only the
/// first video brings it. `episode` is the place of the video in its collection.
pub open spec fn brings_poster(video: VideoTraits, episode: Option<i32>) -> bool {
    as_series(video) && video.in_collection ==> episode == Some(1i32)
}

/// What is due of the five tasks of a video. `open` says which of them are not done, `episode` is
/// the place of the video in its collection if it is known, and `covers_owner` says whether the
/// video brings the files of its creator.
pub fn plan_video_tasks(
    video: VideoTraits,
    open: &[bool; 5],
    episode: Option<i32>,
    covers_owner: bool,
) -> (tasks: VideoTasks)
    ensures
        tasks == due_tasks(video, open@, episode, covers_owner),
{
    let first: bool = match episode {
        Some(number) => number == 1,
        None => false,
    };
    let may_bring: bool = !(is_series(video) && video.in_collection) || first;
    let described: bool = if video.in_collection {
        video.collection_as_series && first
    } else {
        !video.single_page
    };
    VideoTasks {
        poster: open[0] && (!video.single_page || (video.in_collection
            && video.collection_as_series)) && may_bring,
        nfo: open[2] && described,
        upper_face: open[2] && covers_owner,
        upper_nfo: open[3] && covers_owner,
        pages: open[4],
    }
}

/// The address of the cover that stands for a collection: the recorded one, if there is one and
/// the video is the first of the collection. Otherwise the video's own cover stands for it.
pub fn collection_cover(video: VideoTraits, episode: Option<i32>, cover: Option<String>) -> (url:
    Option<String>)
    ensures
        url is Some <==> video.in_collection && episode == Some(1i32) && cover is Some
            && cover->0@.len() > 0,
        url matches Some(text) ==> cover == Some(text),
{
    let first: bool = match episode {
        Some(number) => number == 1,
        None => false,
    };
    if !video.in_collection || !first {
        return None;
    }
    match cover {
        Some(text) => if text.as_str().is_empty() {
            None
        } else {
            Some(text)
        },
        None => None,
    }
}

/// The folders of a creator, from the outer to the inner: the first character of the id, and the
/// id.
pub fn upper_folders(upper_id: i64) -> (folders: (String, String))
    ensures
        folders.0@ == seq![decimal_int(upper_id as int)[0]],
        folders.1@ == decimal_int(upper_id as int),
{
    let inner = integer_text(upper_id);
    let chars = chars_of(inner.as_str());
    proof {
        decimal_reads_back(if upper_id < 0 { (-upper_id) as nat } else { upper_id as nat });
    }
    let mut outer = String::new();
    outer.push(chars[0]);
    assert(outer@ =~= seq![decimal_int(upper_id as int)[0]]);
    (outer, inner)
}

/// A collection that is laid out as a series gets its poster and its description from the same
/// video, the first one.
pub proof fn one_video_describes_a_collection(video: VideoTraits, episode: Option<i32>)
    requires
        video.in_collection,
        video.collection_as_series,
    ensures
        brings_poster(video, episode) <==> episode == Some(1i32),
{
}

/// Where a video goes, as folders below that of its source.
#[derive(Debug, Clone)]
pub struct VideoPlaces {
    /// The folder that is recorded. The files that describe the video as a whole stand there too.
    pub recorded: Vec<String>,
    /// The folder of the pages.
    pub pages: Vec<String>,
}

/// The folder that is recorded of a video.
pub open spec fn recorded_place(root: Seq<char>) -> Seq<Seq<char>> {
    seq![root]
}

/// The folder of the pages of a video: that of the season for a series.
pub open spec fn pages_place(root: Seq<char>, video: VideoTraits) -> Seq<Seq<char>> {
    if as_series(video) {
        recorded_place(root).push(season_folder())
    } else {
        recorded_place(root)
    }
}

/// Tells where a video goes. `root` is its folder below that of its source.
pub fn video_places(root: &str, video: VideoTraits) -> (places: VideoPlaces)
    ensures
        texts(places.recorded@) == recorded_place(root@),
        texts(places.pages@) == pages_place(root@, video),
{
    let mut recorded: Vec<String> = Vec::new();
    recorded.push(root.to_owned());
    let mut pages: Vec<String> = Vec::new();
    pages.push(root.to_owned());
    if is_series(video) {
        pages.push(season_folder_name().to_owned());
    }
    assert(texts(recorded@) =~= recorded_place(root@));
    assert(texts(pages@) =~= pages_place(root@, video));
    VideoPlaces { recorded, pages }
}

/// The name of the file with the portrait of a creator.
pub fn portrait_file_name() -> (name: &'static str)
    ensures
        name@ == "folder.jpg"@,
{
    "folder.jpg"
}

/// The name of the file that describes a creator.
pub fn person_file_name() -> (name: &'static str)
    ensures
        name@ == "person.nfo"@,
{
    "person.nfo"
}

/// What is known of a video before its files are laid out.
#[derive(Debug, Clone)]
pub struct VideoFacts {
    /// Whether the video has a single page, if that is known.
    pub single_page: Option<bool>,
    /// The video comes from a collection.
    pub in_collection: bool,
    /// Videos with several pages are laid out as series.
    pub multi_page_as_series: bool,
    /// Collections are laid out as series.
    pub collection_as_series: bool,
    pub upper_id: i64,
    pub title: String,
    /// The folder of the video, below that of its source.
    pub root: String,
    /// The name of the folder of the video, if it has one.
    pub folder: Option<String>,
    /// What the folder template gives for the video.
    pub rendered: String,
    /// The name of the collection, in a form that can stand in a file name.
    pub collection: String,
    /// The recorded cover of the collection.
    pub collection_cover: Option<String>,
    /// The place of the video in its collection, if it is known.
    pub episode: Option<i32>,
    /// Which of the five tasks are not done.
    pub open: [bool; 5],
    /// The video brings the files of its creator.
    pub covers_owner: bool,
}

/// How the files of a video are laid out, and which of them are due.
#[derive(Debug)]
pub struct VideoLayout {
    pub traits: VideoTraits,
    pub places: VideoPlaces,
    pub files: SeriesFiles,
    pub tasks: VideoTasks,
    /// The address of the poster, where it is not the cover of the video itself.
    pub poster_url: Option<String>,
    /// The folders of the creator, from the outer to the inner.
    pub upper_folders: (String, String),
}

/// What decides about the files of the video.
pub open spec fn traits_of(facts: VideoFacts) -> VideoTraits {
    VideoTraits {
        single_page: facts.single_page->0,
        in_collection: facts.in_collection,
        multi_page_as_series: facts.multi_page_as_series,
        collection_as_series: facts.collection_as_series,
    }
}

/// The name of the files that describe the video as a whole: that of the folder for a series of
/// several pages, what the template gives for other pages, and that of the collection for a
/// collection.
pub open spec fn series_text(facts: VideoFacts) -> Seq<char> {
    if facts.single_page == Some(false) {
        if facts.multi_page_as_series {
            match facts.folder {
                Some(folder) => folder@,
                None => facts.title@,
            }
        } else {
            facts.rendered@
        }
    } else if facts.in_collection && facts.collection_as_series {
        facts.collection@
    } else {
        Seq::empty()
    }
}

/// The files are named by this name.
pub open spec fn files_are_named(files: SeriesFiles, series: bool, name: Seq<char>) -> bool {
    &&& files.above_season == series
    &&& files.nfo@ == if series {
        "tvshow.nfo"@
    } else {
        name + ".nfo"@
    }
    &&& files.thumb@ == name + "-thumb.jpg"@
    &&& files.fanart@ == name + "-fanart.jpg"@
}

/// Of the five tasks these are due.
pub open spec fn due_tasks(
    video: VideoTraits,
    open: Seq<bool>,
    episode: Option<i32>,
    covers_owner: bool,
) -> VideoTasks {
    VideoTasks {
        poster: open[0] && (!video.single_page || (video.in_collection
            && video.collection_as_series)) && brings_poster(video, episode),
        nfo: open[2] && if video.in_collection {
            video.collection_as_series && episode == Some(1i32)
        } else {
            !video.single_page
        },
        upper_face: open[2] && covers_owner,
        upper_nfo: open[3] && covers_owner,
        pages: open[4],
    }
}

/// The cover of the collection stands for the video.
pub open spec fn shows_collection_cover(facts: VideoFacts) -> bool {
    facts.in_collection && facts.episode == Some(1i32) && facts.collection_cover is Some
        && facts.collection_cover->0@.len() > 0
}

/// Lays out the files of a video. The number of its pages has to be known.
pub fn lay_out_video(facts: &VideoFacts) -> (layout: Result<VideoLayout, String>)
    ensures
        layout is Ok <==> facts.single_page is Some,
        layout matches Err(complaint) ==> complaint@ == "single_page is null"@,
        layout matches Ok(plan) ==> {
            &&& plan.traits == traits_of(*facts)
            &&& texts(plan.places.recorded@) == recorded_place(facts.root@)
            &&& texts(plan.places.pages@) == pages_place(facts.root@, plan.traits)
            &&& files_are_named(plan.files, as_series(plan.traits), series_text(*facts))
            &&& plan.tasks == due_tasks(
                plan.traits,
                facts.open@,
                facts.episode,
                facts.covers_owner,
            )
            &&& plan.poster_url == if shows_collection_cover(*facts) {
                facts.collection_cover
            } else {
                None::<String>
            }
            &&& plan.upper_folders.0@ == seq![decimal_int(facts.upper_id as int)[0]]
            &&& plan.upper_folders.1@ == decimal_int(facts.upper_id as int)
        },
{
    let single_page: bool = match known_page_count(facts.single_page) {
        Ok(single) => single,
        Err(complaint) => {
            return Err(complaint);
        },
    };
    let traits = VideoTraits {
        single_page,
        in_collection: facts.in_collection,
        multi_page_as_series: facts.multi_page_as_series,
        collection_as_series: facts.collection_as_series,
    };
    let name = match series_name(traits) {
        SeriesName::Folder => match &facts.folder {
            Some(folder) => folder.clone(),
            None => facts.title.clone(),
        },
        SeriesName::Template => facts.rendered.clone(),
        SeriesName::Collection => facts.collection.clone(),
        SeriesName::Nothing => String::new(),
    };
    let cover = match &facts.collection_cover {
        Some(cover) => Some(cover.clone()),
        None => None,
    };
    assert(name@ =~= series_text(*facts));
    Ok(
        VideoLayout {
            traits,
            places: video_places(facts.root.as_str(), traits),
            files: series_files(traits, name.as_str()),
            tasks: plan_video_tasks(traits, &facts.open, facts.episode, facts.covers_owner),
            poster_url: collection_cover(traits, facts.episode, cover),
            upper_folders: upper_folders(facts.upper_id),
        },
    )
}

/// The recorded folder of a video does not depend on which videos are laid out as series: `a` and `b`
/// may differ in these settings. The pages stand in the season below that folder if the video is a
/// series, and in that folder itself otherwise.
pub proof fn recorded_place_ignores_settings(a: VideoFacts, b: VideoFacts)
    requires
        a.root@ == b.root@,
        a.single_page == b.single_page,
        a.single_page is Some,
        a.in_collection == b.in_collection,
    ensures
        recorded_place(a.root@) == recorded_place(b.root@),
        pages_place(a.root@, traits_of(a)) == if (a.single_page == Some(false)
            && a.multi_page_as_series) || (a.in_collection && a.collection_as_series) {
            recorded_place(a.root@).push(season_folder())
        } else {
            recorded_place(a.root@)
        },
        pages_place(b.root@, traits_of(b)) == if (b.single_page == Some(false)
            && b.multi_page_as_series) || (b.in_collection && b.collection_as_series) {
            recorded_place(a.root@).push(season_folder())
        } else {
            recorded_place(a.root@)
        },
{
}

/// A video that is neither one of several pages nor in a collection that is laid out as a series
/// gets no files that describe it as a whole.
pub proof fn plain_video_is_not_described(
    video: VideoTraits,
    open: Seq<bool>,
    episode: Option<i32>,
    covers_owner: bool,
)
    requires
        video.single_page,
        !(video.in_collection && video.collection_as_series),
    ensures
        !due_tasks(video, open, episode, covers_owner).poster,
        !due_tasks(video, open, episode, covers_owner).nfo,
        !as_series(video),
{
}

/// A video whose tasks are all done has nothing due.
pub proof fn done_video_has_nothing_due(
    video: VideoTraits,
    open: Seq<bool>,
    episode: Option<i32>,
    covers_owner: bool,
)
    requires
        open.len() == 5,
        forall|i: int| 0 <= i < 5 ==> !#[trigger] open[i],
    ensures
        due_tasks(video, open, episode, covers_owner) == (VideoTasks {
            poster: false,
            nfo: false,
            upper_face: false,
            upper_nfo: false,
            pages: false,
        }),
{
}

/// The place of a video in a list of its collection, counted from one.
pub open spec fn place_in(bvids: Seq<String>, bvid: Seq<char>) -> Option<int>
    decreases bvids.len(),
{
    if bvids.len() == 0 {
        None
    } else if bvids[0]@ == bvid {
        Some(1)
    } else {
        match place_in(bvids.drop_first(), bvid) {
            Some(place) => Some(place + 1),
            None => None,
        }
    }
}

/// The number of a video in its collection: its place among the videos of the collection, in the
/// order of their publication.
pub fn collection_episode_number(bvids: &Vec<String>, bvid: &str, collection_id: i32) -> (number:
    Result<i32, String>)
    requires
        bvids@.len() <= i32::MAX,
    ensures
        number is Ok <==> place_in(bvids@, bvid@) is Some,
        number matches Ok(place) ==> place_in(bvids@, bvid@) == Some(place as int),
        number matches Err(complaint) ==> complaint@ == "视频 "@ + bvid@ + " 在合集 "@
            + decimal_int(collection_id as int) + " 中未找到"@,
{
    let mut k: usize = 0;
    assert(bvids@.skip(0) =~= bvids@);
    while k < bvids.len()
        invariant
            k <= bvids@.len() <= i32::MAX,
            place_in(bvids@, bvid@) == match place_in(bvids@.skip(k as int), bvid@) {
                Some(place) => Some(place + k),
                None => None,
            },
        decreases bvids@.len() - k,
    {
        assert(bvids@.skip(k as int)[0] == bvids@[k as int]);
        assert(bvids@.skip(k as int).drop_first() =~= bvids@.skip(k + 1));
        if same_text(bvids[k].as_str(), bvid) {
            return Ok((k + 1) as i32);
        }
        k += 1;
    }
    let mut complaint = "视频 ".to_owned();
    complaint.append(bvid);
    complaint.append(" 在合集 ");
    complaint.append(integer_text(collection_id as i64).as_str());
    complaint.append(" 中未找到");
    Err(complaint)
}

/// A video that is in the list has a number between one and the length of the list, and stands
/// there; no earlier entry is the same.
pub proof fn place_is_first(bvids: Seq<String>, bvid: Seq<char>)
    ensures
        place_in(bvids, bvid) is Some <==> exists|i: int|
            0 <= i < bvids.len() && (#[trigger] bvids[i])@ == bvid,
        place_in(bvids, bvid) matches Some(place) ==> {
            &&& 1 <= place <= bvids.len()
            &&& bvids[place - 1]@ == bvid
            &&& forall|i: int| 0 <= i < place - 1 ==> (#[trigger] bvids[i])@ != bvid
        },
    decreases bvids.len(),
{
    if bvids.len() > 0 {
        let rest = bvids.drop_first();
        place_is_first(rest, bvid);
        if let Some(place) = place_in(rest, bvid) {
            assert(bvids[place]@ == rest[place - 1]@);
            assert forall|i: int| 1 <= i < place implies (#[trigger] bvids[i])@ != bvid by {
                assert(bvids[i] == rest[i - 1]);
            }
        } else if bvids[0]@ != bvid {
            assert forall|i: int| 0 <= i < bvids.len() implies (#[trigger] bvids[i])@ != bvid by {
                if i > 0 {
                    assert(bvids[i] == rest[i - 1]);
                }
            }
        }
    }
}

/// A video with several pages that is in no collection gets its poster and its description whenever
/// they are open, whatever is laid out as a series.
pub proof fn several_pages_are_described(
    video: VideoTraits,
    open: Seq<bool>,
    episode: Option<i32>,
    covers_owner: bool,
)
    requires
        !video.single_page,
        !video.in_collection,
    ensures
        due_tasks(video, open, episode, covers_owner).poster == open[0],
        due_tasks(video, open, episode, covers_owner).nfo == open[2],
{
}

/// A collection that is laid out as a series is described by its first video and by no other,
/// however many pages that one has.
pub proof fn first_video_describes_its_collection(
    video: VideoTraits,
    open: Seq<bool>,
    episode: Option<i32>,
    covers_owner: bool,
)
    requires
        video.in_collection,
        video.collection_as_series,
    ensures
        due_tasks(video, open, episode, covers_owner).poster <==> open[0] && episode == Some(1i32),
        due_tasks(video, open, episode, covers_owner).nfo <==> open[2] && episode == Some(1i32),
{
}

/// In a collection that is not laid out as a series no video describes it. A video with several
/// pages still gets its poster, but where it is a series itself only the first one does.
pub proof fn loose_collection_is_not_described(
    video: VideoTraits,
    open: Seq<bool>,
    episode: Option<i32>,
    covers_owner: bool,
)
    requires
        video.in_collection,
        !video.collection_as_series,
    ensures
        !due_tasks(video, open, episode, covers_owner).nfo,
        due_tasks(video, open, episode, covers_owner).poster <==> open[0] && !video.single_page && (
        video.multi_page_as_series ==> episode == Some(1i32)),
{
}

/// The files of the creator and the pages do not depend on how the video is laid out: those of the
/// creator are due where the video brings them and their tasks are open, and the pages where theirs is.
pub proof fn layout_leaves_other_tasks_alone(
    video: VideoTraits,
    open: Seq<bool>,
    episode: Option<i32>,
    covers_owner: bool,
)
    ensures
        due_tasks(video, open, episode, covers_owner).upper_face <==> open[2] && covers_owner,
        due_tasks(video, open, episode, covers_owner).upper_nfo <==> open[3] && covers_owner,
        due_tasks(video, open, episode, covers_owner).pages == open[4],
{
}

/// A video is a series because of its pages or because of its collection, and each of the two
/// settings counts only where it applies.
pub proof fn settings_make_a_series(video: VideoTraits)
    ensures
        !video.single_page && !video.in_collection ==> as_series(video)
            == video.multi_page_as_series,
        video.single_page && video.in_collection ==> as_series(video) == video.collection_as_series,
        !video.single_page && video.in_collection ==> (as_series(video) <==>
            video.multi_page_as_series || video.collection_as_series),
        video.single_page && !video.in_collection ==> !as_series(video),
{
}

/// What is known of a video decides as it is known.
pub proof fn traits_are_the_facts(facts: VideoFacts)
    requires
        facts.single_page is Some,
    ensures
        traits_of(facts).single_page <==> facts.single_page == Some(true),
        traits_of(facts).in_collection == facts.in_collection,
        traits_of(facts).multi_page_as_series == facts.multi_page_as_series,
        traits_of(facts).collection_as_series == facts.collection_as_series,
{
}

/// The pages of a series stand in the folder of its first season, below the folder of the video; all
/// other pages stand in the folder of the video.
pub proof fn pages_of_a_series_stand_in_its_season(facts: VideoFacts)
    requires
        facts.single_page is Some,
    ensures
        ({
            let series = (facts.single_page == Some(false) && facts.multi_page_as_series) || (
            facts.in_collection && facts.collection_as_series);
            let place = pages_place(facts.root@, traits_of(facts));
            &&& place.len() == if series { 2int } else { 1 }
            &&& place[0] == facts.root@
            &&& series ==> place[1] == "Season 01"@
            &&& recorded_place(facts.root@) == seq![facts.root@]
        }),
{
}

/// The files that describe a video of several pages are named after it: after its folder where it is
/// a series of its own, or after its title where it has no folder, and else after what the template
/// gives. The cover and the background share that name, and each has its own ending.
pub proof fn files_of_several_pages_are_named(facts: VideoFacts, files: SeriesFiles)
    requires
        facts.single_page == Some(false),
        files_are_named(files, as_series(traits_of(facts)), series_text(facts)),
    ensures
        facts.multi_page_as_series && facts.folder is Some ==> files.nfo@ == "tvshow.nfo"@
            && files.thumb@ == facts.folder->0@ + "-thumb.jpg"@ && files.fanart@
            == facts.folder->0@ + "-fanart.jpg"@,
        facts.multi_page_as_series && facts.folder is None ==> files.nfo@ == "tvshow.nfo"@
            && files.thumb@ == facts.title@ + "-thumb.jpg"@ && files.fanart@ == facts.title@
            + "-fanart.jpg"@,
        !facts.multi_page_as_series ==> files.thumb@ == facts.rendered@ + "-thumb.jpg"@
            && files.fanart@ == facts.rendered@ + "-fanart.jpg"@,
        !facts.multi_page_as_series && !(facts.in_collection && facts.collection_as_series)
            ==> files.nfo@ == facts.rendered@ + ".nfo"@ && !files.above_season,
        !facts.multi_page_as_series && facts.in_collection && facts.collection_as_series
            ==> files.nfo@ == "tvshow.nfo"@ && files.above_season,
        facts.multi_page_as_series ==> files.above_season,
{
}

/// The files that describe a collection of single videos are named after the collection, where it is
/// laid out as a series.
pub proof fn files_of_a_collection_are_named(facts: VideoFacts, files: SeriesFiles)
    requires
        facts.single_page == Some(true),
        facts.in_collection,
        facts.collection_as_series,
        files_are_named(files, as_series(traits_of(facts)), series_text(facts)),
    ensures
        files.above_season,
        files.nfo@ == "tvshow.nfo"@,
        files.thumb@ == facts.collection@ + "-thumb.jpg"@,
        files.fanart@ == facts.collection@ + "-fanart.jpg"@,
{
}

/// Folders are kept apart where the template names each video: where it shows the title, or the name
/// without that of the creator. A template with the name of the creator alone lets videos share a
/// folder.
pub proof fn shared_folders_are_wanted(template: Seq<char>)
    ensures
        occurs(template, "title"@) ==> names_each_video(template),
        occurs(template, "name"@) && !occurs(template, "upper_name"@) ==> names_each_video(template),
        occurs(template, "upper_name"@) && !occurs(template, "title"@) ==> !names_each_video(
            template,
        ),
        !occurs(template, "name"@) && !occurs(template, "title"@) ==> !names_each_video(template),
{
}

/// The cover of a collection stands for its first video only, and only if there is one.
pub proof fn cover_of_a_collection_stands_for_its_first_video(facts: VideoFacts)
    ensures
        shows_collection_cover(facts) ==> facts.in_collection && facts.episode == Some(1i32),
        facts.collection_cover is None ==> !shows_collection_cover(facts),
        facts.in_collection && facts.episode == Some(1i32) ==> (facts.collection_cover matches Some(
            cover,
        ) ==> (shows_collection_cover(facts) <==> cover@.len() > 0)),
{
}

/// The files that describe a video as a whole are named after its folder or after the template where
/// it has several pages, as it is a series of its own or not; after the collection where a single video
/// stands for one that is a series; and there are none otherwise.
pub proof fn name_fits_the_video(video: VideoTraits)
    ensures
        !video.single_page ==> name_source(video) == if video.multi_page_as_series {
            SeriesName::Folder
        } else {
            SeriesName::Template
        },
        video.single_page ==> name_source(video) == if video.in_collection
            && video.collection_as_series {
            SeriesName::Collection
        } else {
            SeriesName::Nothing
        },
{
}

/// The folders of a creator are told by their number: the inner one is the whole number, and the outer
/// one its first character.
pub proof fn creators_have_folders_of_their_own(a: i64, b: i64)
    ensures
        decimal_int(a as int) == decimal_int(b as int) ==> a == b,
{
    if decimal_int(a as int) == decimal_int(b as int) {
        decimal_int_is_injective(a as int, b as int);
    }
}

}
