//! Push notifications about finished scans.

use std::time::Duration;

use vstd::prelude::*;
use vstd::seq_lib::to_multiset_contains;

use crate::text::{is_before, order_is_total, order_is_transitive, stands_before};

verus! {

/// A video that a scan found.
#[derive(Debug)]
pub struct NewVideoInfo {
    pub title: String,
    pub bvid: String,
    pub upper_name: String,
    pub source_type: String,
    pub source_name: String,
    /// The time of publication in Beijing time.
    pub pubtime: Option<String>,
    pub episode_number: Option<i32>,
    pub season_number: Option<i32>,
    pub video_id: Option<i32>,
}

impl Clone for NewVideoInfo {
    fn clone(&self) -> (copy: Self)
        ensures
            copy == *self,
    {
        NewVideoInfo {
            title: self.title.clone(),
            bvid: self.bvid.clone(),
            upper_name: self.upper_name.clone(),
            source_type: self.source_type.clone(),
            source_name: self.source_name.clone(),
            pubtime: match &self.pubtime {
                Some(time) => Some(time.clone()),
                None => None,
            },
            episode_number: self.episode_number,
            season_number: self.season_number,
            video_id: self.video_id,
        }
    }
}

/// What a scan found in one video source.
#[derive(Debug)]
pub struct SourceScanResult {
    pub source_type: String,
    pub source_name: String,
    pub new_videos: Vec<NewVideoInfo>,
}

/// Two sources have the same kind and name, and the same videos in the same order.
pub open spec fn same_source(a: SourceScanResult, b: SourceScanResult) -> bool {
    a.source_type == b.source_type && a.source_name == b.source_name && a.new_videos@
        == b.new_videos@
}

impl Clone for SourceScanResult {
    fn clone(&self) -> (copy: Self)
        ensures
            same_source(copy, *self),
    {
        let mut new_videos: Vec<NewVideoInfo> = Vec::new();
        let mut k: usize = 0;
        while k < self.new_videos.len()
            invariant
                k <= self.new_videos@.len(),
                new_videos@ == self.new_videos@.take(k as int),
            decreases self.new_videos@.len() - k,
        {
            let video = self.new_videos[k].clone();
            new_videos.push(video);
            assert(self.new_videos@.take(k + 1) =~= self.new_videos@.take(k as int).push(
                self.new_videos@[k as int],
            ));
            k += 1;
        }
        assert(self.new_videos@.take(self.new_videos@.len() as int) =~= self.new_videos@);
        SourceScanResult {
            source_type: self.source_type.clone(),
            source_name: self.source_name.clone(),
            new_videos,
        }
    }
}

/// What a scan found in all video sources.
#[derive(Debug)]
pub struct ScanSummary {
    pub total_sources: usize,
    pub total_new_videos: usize,
    pub scan_duration: Duration,
    pub source_results: Vec<SourceScanResult>,
}

impl Clone for ScanSummary {
    fn clone(&self) -> (copy: Self)
        ensures
            copy.total_sources == self.total_sources,
            copy.total_new_videos == self.total_new_videos,
            copy.scan_duration == self.scan_duration,
            copy.source_results@.len() == self.source_results@.len(),
            forall|i: int|
                0 <= i < self.source_results@.len() ==> same_source(
                    #[trigger] copy.source_results@[i],
                    self.source_results@[i],
                ),
    {
        let mut source_results: Vec<SourceScanResult> = Vec::new();
        let mut k: usize = 0;
        while k < self.source_results.len()
            invariant
                k <= self.source_results@.len(),
                source_results@.len() == k,
                forall|i: int|
                    0 <= i < k ==> same_source(
                        #[trigger] source_results@[i],
                        self.source_results@[i],
                    ),
            decreases self.source_results@.len() - k,
        {
            let source = self.source_results[k].clone();
            source_results.push(source);
            k += 1;
        }
        ScanSummary {
            total_sources: self.total_sources,
            total_new_videos: self.total_new_videos,
            scan_duration: self.scan_duration,
            source_results,
        }
    }
}

/// The greatest size of a message, in bytes.
pub const MAX_CONTENT_LENGTH: usize = 30000;

/// The number of videos of one source that a message lists at most.
pub const MAX_VIDEOS_PER_SOURCE: usize = 20;

/// A full-width bracket turned into the square bracket that it resembles.
pub open spec fn plain_bracket(c: char) -> char {
    if c == '「' || c == '【' || c == '〖' || c == '〔' {
        '['
    } else if c == '」' || c == '】' || c == '〗' || c == '〕' {
        ']'
    } else {
        c
    }
}

/// The character lies in the basic multilingual plane.
pub open spec fn is_basic(c: char) -> bool {
    (c as u32) < 0x10000
}

/// A text that the push service can store: full-width brackets are made plain, and characters
/// outside the basic multilingual plane are dropped.
pub open spec fn sanitized(text: Seq<char>) -> Seq<char> {
    text.map_values(|c: char| plain_bracket(c)).filter(|c: char| is_basic(c))
}

/// Makes a text storable for the push service.
pub fn sanitize_for_serverchan(text: &str) -> (clean: String)
    ensures
        clean@ == sanitized(text@),
{
    let mut clean = String::new();
    proof {
        reveal(Seq::filter);
        assert(sanitized(text@.take(0)) =~= Seq::<char>::empty());
    }
    for c in it: text.chars()
        invariant
            clean@ == sanitized(it.seq().take(it.index())),
            it.seq() == text@,
    {
        let plain: char = match c {
            '「' | '【' | '〖' | '〔' => '[',
            '」' | '】' | '〗' | '〕' => ']',
            other => other,
        };
        proof {
            reveal(Seq::filter);
            let before = it.seq().take(it.index());
            let after = it.seq().take(it.index() + 1);
            let made_plain = after.map_values(|x: char| plain_bracket(x));
            assert(made_plain.drop_last() =~= before.map_values(|x: char| plain_bracket(x)));
            assert(made_plain.last() == plain_bracket(c));
        }
        if (plain as u32) < 0x10000 {
            clean.push(plain);
        }
    }
    assert(text@.take(text@.len() as int) =~= text@);
    clean
}

/// The text by which a video is ordered: its time of publication.
pub open spec fn publication(video: NewVideoInfo) -> Seq<char> {
    match video.pubtime {
        Some(time) => time@,
        None => Seq::empty(),
    }
}

/// The sorted videos with one more among them: behind those that are not older.
pub open spec fn with_inserted(sorted: Seq<NewVideoInfo>, video: NewVideoInfo) -> Seq<NewVideoInfo>
    decreases sorted.len(),
{
    if sorted.len() > 0 && stands_before(publication(sorted.last()), publication(video)) {
        with_inserted(sorted.drop_last(), video).push(sorted.last())
    } else {
        sorted.push(video)
    }
}

/// The videos from the newest to the oldest; those of the same time keep their order.
pub open spec fn newest_first(videos: Seq<NewVideoInfo>) -> Seq<NewVideoInfo>
    decreases videos.len(),
{
    if videos.len() == 0 {
        videos
    } else {
        with_inserted(newest_first(videos.drop_last()), videos.last())
    }
}

fn is_older(a: &NewVideoInfo, b: &NewVideoInfo) -> (answer: bool)
    ensures
        answer == stands_before(publication(*a), publication(*b)),
{
    match (&a.pubtime, &b.pubtime) {
        (Some(left), Some(right)) => is_before(left.as_str(), right.as_str()),
        (None, Some(right)) => !right.as_str().is_empty(),
        (_, None) => false,
    }
}

/// The videos that a list of positions stands for.
pub open spec fn picked(videos: Seq<NewVideoInfo>, order: Seq<usize>) -> Seq<NewVideoInfo> {
    order.map_values(|i: usize| videos[i as int])
}

/// Where a video is inserted in a sorted list.
proof fn insertion_point(sorted: Seq<NewVideoInfo>, video: NewVideoInfo, at: int)
    requires
        0 <= at <= sorted.len(),
        at > 0 ==> !stands_before(publication(sorted[at - 1]), publication(video)),
        forall|j: int|
            at <= j < sorted.len() ==> stands_before(
                publication(#[trigger] sorted[j]),
                publication(video),
            ),
    ensures
        with_inserted(sorted, video) == sorted.insert(at, video),
    decreases sorted.len(),
{
    if at == sorted.len() {
        assert(sorted.insert(at, video) =~= sorted.push(video));
    } else {
        assert(sorted.last() == sorted[sorted.len() - 1]);
        insertion_point(sorted.drop_last(), video, at);
        assert(sorted.insert(at, video) =~= sorted.drop_last().insert(at, video).push(
            sorted.last(),
        ));
    }
}

/// The positions of the videos from the newest to the oldest.
pub fn newest_first_order(videos: &Vec<NewVideoInfo>) -> (order: Vec<usize>)
    ensures
        order@.len() == videos@.len(),
        forall|i: int| 0 <= i < order@.len() ==> (#[trigger] order@[i]) < videos@.len(),
        picked(videos@, order@) == newest_first(videos@),
{
    let mut order: Vec<usize> = Vec::new();
    let mut k: usize = 0;
    assert(picked(videos@, order@) =~= newest_first(videos@.take(0)));
    while k < videos.len()
        invariant
            k <= videos@.len(),
            order@.len() == k,
            forall|i: int| 0 <= i < order@.len() ==> (#[trigger] order@[i]) < videos@.len(),
            picked(videos@, order@) == newest_first(videos@.take(k as int)),
        decreases videos@.len() - k,
    {
        let mut at: usize = order.len();
        let ghost sorted = picked(videos@, order@);
        while at > 0 && is_older(&videos[order[at - 1]], &videos[k])
            invariant
                at <= order@.len(),
                k < videos@.len(),
                order@.len() == k,
                sorted == picked(videos@, order@),
                forall|i: int| 0 <= i < order@.len() ==> (#[trigger] order@[i]) < videos@.len(),
                forall|j: int|
                    at <= j < sorted.len() ==> stands_before(
                        publication(#[trigger] sorted[j]),
                        publication(videos@[k as int]),
                    ),
            decreases at,
        {
            at -= 1;
        }
        proof {
            insertion_point(sorted, videos@[k as int], at as int);
            assert(videos@.take(k + 1).drop_last() =~= videos@.take(k as int));
        }
        let ghost before = order@;
        order.insert(at, k);
        assert(picked(videos@, order@) =~= sorted.insert(at as int, videos@[k as int]));
        k += 1;
    }
    assert(videos@.take(videos@.len() as int) =~= videos@);
    order
}

/// Inserting keeps the list sorted.
proof fn insertion_sorts(sorted: Seq<NewVideoInfo>, video: NewVideoInfo)
    requires
        is_newest_first(sorted),
    ensures
        is_newest_first(with_inserted(sorted, video)),
        forall|j: int|
            0 <= j < with_inserted(sorted, video).len() ==> {
                let other = #[trigger] with_inserted(sorted, video)[j];
                other == video || sorted.contains(other)
            },
    decreases sorted.len(),
{
    let result = with_inserted(sorted, video);
    if sorted.len() > 0 && stands_before(publication(sorted.last()), publication(video)) {
        let front = sorted.drop_last();
        insertion_sorts(front, video);
        let inner = with_inserted(front, video);
        assert forall|i: int, j: int| 0 <= i < j < result.len() implies !stands_before(
            publication(#[trigger] result[i]),
            publication(#[trigger] result[j]),
        ) by {
            if j == inner.len() {
                let other = inner[i];
                if other == video {
                    order_is_total(publication(video), publication(sorted.last()));
                } else {
                    let at = choose|at: int| 0 <= at < front.len() && front[at] == other;
                    assert(sorted[at] == other);
                }
            }
        }
        assert forall|j: int| 0 <= j < result.len() implies {
            let other = #[trigger] result[j];
            other == video || sorted.contains(other)
        } by {
            if j < inner.len() {
                let other = inner[j];
                if other != video {
                    let at = choose|at: int| 0 <= at < front.len() && front[at] == other;
                    assert(sorted[at] == other);
                }
            } else {
                assert(sorted[sorted.len() - 1] == result[j]);
            }
        }
    } else {
        assert forall|i: int, j: int| 0 <= i < j < result.len() implies !stands_before(
            publication(#[trigger] result[i]),
            publication(#[trigger] result[j]),
        ) by {
            if j == sorted.len() && i < sorted.len() - 1 {
                order_is_transitive(
                    publication(sorted[i]),
                    publication(sorted.last()),
                    publication(video),
                );
            }
        }
        assert forall|j: int| 0 <= j < result.len() implies {
            let other = #[trigger] result[j];
            other == video || sorted.contains(other)
        } by {
            if j < sorted.len() {
                assert(sorted[j] == result[j]);
            }
        }
    }
}

/// No video of the list is older than one behind it.
pub open spec fn is_newest_first(videos: Seq<NewVideoInfo>) -> bool {
    forall|i: int, j: int|
        0 <= i < j < videos.len() ==> !stands_before(
            publication(#[trigger] videos[i]),
            publication(#[trigger] videos[j]),
        )
}

/// In the sorted list no video is older than one behind it.
pub proof fn newest_first_is_sorted(videos: Seq<NewVideoInfo>)
    ensures
        is_newest_first(newest_first(videos)),
    decreases videos.len(),
{
    if videos.len() > 0 {
        newest_first_is_sorted(videos.drop_last());
        insertion_sorts(newest_first(videos.drop_last()), videos.last());
    }
}

/// The videos that were published at the given time, in their order.
pub open spec fn published_at(videos: Seq<NewVideoInfo>, time: Seq<char>) -> Seq<NewVideoInfo> {
    videos.filter(|video: NewVideoInfo| publication(video) == time)
}

proof fn published_after_push(videos: Seq<NewVideoInfo>, video: NewVideoInfo, time: Seq<char>)
    ensures
        published_at(videos.push(video), time) == if publication(video) == time {
            published_at(videos, time).push(video)
        } else {
            published_at(videos, time)
        },
{
    reveal(Seq::filter);
    assert(videos.push(video).drop_last() =~= videos);
}

proof fn insertion_keeps_order(sorted: Seq<NewVideoInfo>, video: NewVideoInfo, time: Seq<char>)
    ensures
        published_at(with_inserted(sorted, video), time) == published_at(sorted.push(video), time),
    decreases sorted.len(),
{
    if sorted.len() > 0 && stands_before(publication(sorted.last()), publication(video)) {
        let front = sorted.drop_last();
        insertion_keeps_order(front, video, time);
        order_is_total(publication(sorted.last()), publication(video));
        published_after_push(with_inserted(front, video), sorted.last(), time);
        published_after_push(front, video, time);
        published_after_push(front, sorted.last(), time);
        published_after_push(sorted, video, time);
        assert(front.push(sorted.last()) =~= sorted);
    }
}

/// Sorting keeps every video, and keeps the order of those that were published at the same time.
pub proof fn newest_first_is_stable(videos: Seq<NewVideoInfo>, time: Seq<char>)
    ensures
        published_at(newest_first(videos), time) == published_at(videos, time),
    decreases videos.len(),
{
    if videos.len() > 0 {
        let front = videos.drop_last();
        newest_first_is_stable(front, time);
        insertion_keeps_order(newest_first(front), videos.last(), time);
        published_after_push(newest_first(front), videos.last(), time);
        published_after_push(front, videos.last(), time);
        assert(front.push(videos.last()) =~= videos);
    }
}

/// A video whose time of publication is not known stands behind all those whose time is.
pub proof fn undated_come_last(videos: Seq<NewVideoInfo>, i: int, j: int)
    requires
        0 <= i < j < newest_first(videos).len(),
        publication(newest_first(videos)[i]).len() == 0,
    ensures
        publication(newest_first(videos)[j]).len() == 0,
{
    newest_first_is_sorted(videos);
    let sorted = newest_first(videos);
    assert(!stands_before(publication(sorted[i]), publication(sorted[j])));
}

proof fn last_is_published(videos: Seq<NewVideoInfo>)
    requires
        videos.len() > 0,
    ensures
        ({
            let time = publication(videos.last());
            published_at(videos, time) == published_at(videos.drop_last(), time).push(videos.last())
        }),
{
    published_after_push(videos.drop_last(), videos.last(), publication(videos.last()));
    assert(videos.drop_last().push(videos.last()) =~= videos);
}

proof fn published_is_among(videos: Seq<NewVideoInfo>, time: Seq<char>, at: int)
    requires
        0 <= at < published_at(videos, time).len(),
    ensures
        publication(published_at(videos, time)[at]) == time,
        videos.contains(published_at(videos, time)[at]),
    decreases videos.len(),
{
    reveal(Seq::filter);
    if videos.len() > 0 {
        let front = videos.drop_last();
        let before = published_at(front, time);
        if at < before.len() {
            published_is_among(front, time, at);
            assert(published_at(videos, time)[at] == before[at]);
            let i = choose|i: int| 0 <= i < front.len() && front[i] == before[at];
            assert(videos[i] == before[at]);
        } else {
            assert(videos[videos.len() - 1] == videos.last());
        }
    }
}

/// A sorted list is determined by the videos of each time.
proof fn sorted_lists_agree(a: Seq<NewVideoInfo>, b: Seq<NewVideoInfo>)
    requires
        is_newest_first(a),
        is_newest_first(b),
        forall|time: Seq<char>| #[trigger] published_at(a, time) == published_at(b, time),
    ensures
        a == b,
    decreases a.len(),
{
    reveal(Seq::filter);
    if a.len() == 0 {
        if b.len() > 0 {
            let time = publication(b.last());
            last_is_published(b);
            assert(published_at(a, time).len() == 0);
            assert(published_at(a, time) == published_at(b, time));
        }
        assert(a =~= b);
    } else {
        let x = a.last();
        let t = publication(x);
        last_is_published(a);
        assert(published_at(a, t) == published_at(b, t));
        assert(published_at(b, t).len() > 0);
        if b.len() == 0 {
            assert(published_at(b, t).len() == 0);
        }
        let y = b.last();
        let u = publication(y);
        last_is_published(b);
        assert(published_at(a, u) == published_at(b, u));
        // The last video of each list is in the other one, so neither is older than the other.
        published_is_among(b, t, published_at(b, t).len() - 1);
        let i = choose|i: int| 0 <= i < b.len() && b[i] == published_at(b, t).last();
        published_is_among(a, u, published_at(a, u).len() - 1);
        let j = choose|j: int| 0 <= j < a.len() && a[j] == published_at(a, u).last();
        if i < b.len() - 1 {
            assert(!stands_before(publication(b[i]), publication(b[b.len() - 1])));
        }
        if j < a.len() - 1 {
            assert(!stands_before(publication(a[j]), publication(a[a.len() - 1])));
        }
        order_is_total(t, u);
        assert(t == u);
        assert(published_at(a, t).last() == x);
        assert(published_at(b, t).last() == y);
        let front_a = a.drop_last();
        let front_b = b.drop_last();
        assert forall|time: Seq<char>| #[trigger] published_at(front_a, time) == published_at(
            front_b,
            time,
        ) by {
            published_after_push(front_a, x, time);
            published_after_push(front_b, y, time);
            assert(front_a.push(x) =~= a);
            assert(front_b.push(y) =~= b);
            assert(published_at(a, time) == published_at(b, time));
            if time == t {
                assert(published_at(a, time).drop_last() =~= published_at(front_a, time));
                assert(published_at(b, time).drop_last() =~= published_at(front_b, time));
            }
        }
        assert forall|i: int, j: int| 0 <= i < j < front_a.len() implies !stands_before(
            publication(#[trigger] front_a[i]),
            publication(#[trigger] front_a[j]),
        ) by {
            assert(front_a[i] == a[i] && front_a[j] == a[j]);
        }
        assert forall|i: int, j: int| 0 <= i < j < front_b.len() implies !stands_before(
            publication(#[trigger] front_b[i]),
            publication(#[trigger] front_b[j]),
        ) by {
            assert(front_b[i] == b[i] && front_b[j] == b[j]);
        }
        sorted_lists_agree(front_a, front_b);
        assert(front_a.push(x) =~= a);
        assert(front_b.push(y) =~= b);
    }
}

/// No two videos were published at the same time.
pub open spec fn times_differ(videos: Seq<NewVideoInfo>) -> bool {
    forall|i: int, j: int|
        0 <= i < j < videos.len() ==> publication(#[trigger] videos[i]) != publication(
            #[trigger] videos[j],
        )
}

proof fn one_video_of_each_time(videos: Seq<NewVideoInfo>, time: Seq<char>)
    requires
        times_differ(videos),
    ensures
        published_at(videos, time).len() <= 1,
        forall|i: int|
            0 <= i < videos.len() && publication(#[trigger] videos[i]) == time ==> published_at(
                videos,
                time,
            ) == seq![videos[i]],
    decreases videos.len(),
{
    reveal(Seq::filter);
    if videos.len() > 0 {
        let front = videos.drop_last();
        assert forall|i: int, j: int| 0 <= i < j < front.len() implies publication(
            #[trigger] front[i],
        ) != publication(#[trigger] front[j]) by {
            assert(front[i] == videos[i] && front[j] == videos[j]);
        }
        one_video_of_each_time(front, time);
        if publication(videos.last()) == time {
            if published_at(front, time).len() > 0 {
                published_is_among(front, time, 0);
                let i = choose|i: int| 0 <= i < front.len() && front[i] == published_at(front, time)[0];
                assert(videos[i] == front[i]);
                assert(publication(videos[i]) != publication(videos[videos.len() - 1]));
            }
            assert(published_at(videos, time) =~= seq![videos.last()]);
            assert forall|i: int|
                0 <= i < videos.len() && publication(
                    #[trigger] videos[i],
                ) == time implies published_at(videos, time) == seq![videos[i]] by {
                if i < videos.len() - 1 {
                    assert(publication(videos[i]) != publication(videos[videos.len() - 1]));
                }
            }
        } else {
            assert forall|i: int|
                0 <= i < videos.len() && publication(
                    #[trigger] videos[i],
                ) == time implies published_at(videos, time) == seq![videos[i]] by {
                assert(front[i] == videos[i]);
            }
        }
    }
}

/// Where the times of publication differ, the sorted list does not depend on the order in which the
/// videos are given.
pub proof fn newest_first_ignores_order(a: Seq<NewVideoInfo>, b: Seq<NewVideoInfo>)
    requires
        a.to_multiset() == b.to_multiset(),
        times_differ(a),
        times_differ(b),
    ensures
        newest_first(a) == newest_first(b),
{
    newest_first_is_sorted(a);
    newest_first_is_sorted(b);
    assert forall|time: Seq<char>| #[trigger] published_at(newest_first(a), time) == published_at(
        newest_first(b),
        time,
    ) by {
        newest_first_is_stable(a, time);
        newest_first_is_stable(b, time);
        one_video_of_each_time(a, time);
        one_video_of_each_time(b, time);
        let of_a = published_at(a, time);
        let of_b = published_at(b, time);
        if of_a.len() > 0 {
            published_is_among(a, time, 0);
            to_multiset_contains(a, of_a[0]);
            to_multiset_contains(b, of_a[0]);
            let j = choose|j: int| 0 <= j < b.len() && b[j] == of_a[0];
            assert(publication(b[j]) == time);
            assert(of_a =~= of_b);
        } else if of_b.len() > 0 {
            published_is_among(b, time, 0);
            to_multiset_contains(a, of_b[0]);
            to_multiset_contains(b, of_b[0]);
            let i = choose|i: int| 0 <= i < a.len() && a[i] == of_b[0];
            assert(publication(a[i]) == time);
        } else {
            assert(of_a =~= of_b);
        }
    }
    sorted_lists_agree(newest_first(a), newest_first(b));
}

/// Four opening and four closing full-width brackets become square brackets, and no other character
/// is changed.
pub proof fn brackets_become_plain(c: char)
    ensures
        plain_bracket(c) == if "「【〖〔"@.contains(c) {
            '['
        } else if "」】〗〕"@.contains(c) {
            ']'
        } else {
            c
        },
{
    reveal_strlit("「【〖〔");
    reveal_strlit("」】〗〕");
    let opening = "「【〖〔"@;
    let closing = "」】〗〕"@;
    assert(opening.len() == 4 && opening[0] == '「' && opening[1] == '【' && opening[2] == '〖'
        && opening[3] == '〔');
    assert(closing.len() == 4 && closing[0] == '」' && closing[1] == '】' && closing[2] == '〗'
        && closing[3] == '〕');
    if opening.contains(c) {
        let i = choose|i: int| 0 <= i < opening.len() && opening[i] == c;
    }
    if closing.contains(c) {
        let i = choose|i: int| 0 <= i < closing.len() && closing[i] == c;
    }
}

/// A text is made storable character by character: each one is kept in its place, with plain brackets,
/// unless it lies outside the basic multilingual plane.
pub proof fn texts_are_sanitized_in_order(text: Seq<char>, c: char)
    ensures
        sanitized(Seq::empty()) == Seq::<char>::empty(),
        sanitized(text.push(c)) == if (c as u32) < 0x10000 {
            sanitized(text).push(plain_bracket(c))
        } else {
            sanitized(text)
        },
{
    reveal(Seq::filter);
    let plain = text.push(c).map_values(|x: char| plain_bracket(x));
    assert(plain.drop_last() =~= text.map_values(|x: char| plain_bracket(x)));
    assert(plain.last() == plain_bracket(c));
    assert(sanitized(Seq::empty()) =~= Seq::<char>::empty());
}

/// Videos are ordered by the text of their time of publication.
pub proof fn publication_is_the_recorded_time(video: NewVideoInfo)
    ensures
        video.pubtime matches Some(time) ==> publication(video) == time@,
        video.pubtime is None ==> publication(video).len() == 0,
{
}

/// A message takes at most thirty thousand bytes, and lists at most twenty videos of a source.
pub proof fn messages_are_bounded()
    ensures
        MAX_CONTENT_LENGTH == 30000,
        MAX_VIDEOS_PER_SOURCE == 20,
{
}

}
