//! Whether a folder that is already there belongs to a video.

use vstd::prelude::*;

use crate::text::{
    byte_len, byte_length, chars_of, contains, ends_with, occurs, replace_char, same_text, texts,
    with_replaced,
};

verus! {

/// What `str::to_lowercase` of std makes of a text.
pub uninterp spec fn lowercased(text: Seq<char>) -> Seq<char>;

/// The text in lower case.
///
/// Calls `str::to_lowercase` of std. Trusted: the result depends on the text alone.
#[verifier::external_body]
pub(crate) fn lowercase(text: &str) -> (lower: String)
    ensures
        lower@ == lowercased(text@),
{
    text.to_lowercase()
}

/// The character is white space: it has the property `White_Space` of Unicode.
pub open spec fn is_white(c: char) -> bool {
    let code = c as u32;
    ||| 0x9 <= code <= 0xd
    ||| code == 0x20
    ||| code == 0x85
    ||| code == 0xa0
    ||| code == 0x1680
    ||| 0x2000 <= code <= 0x200a
    ||| code == 0x2028
    ||| code == 0x2029
    ||| code == 0x202f
    ||| code == 0x205f
    ||| code == 0x3000
}

/// `char::is_whitespace` of std. Trusted: it tells the characters with the property `White_Space` of
/// Unicode, which are those that `is_white` lists.
pub assume_specification[ char::is_whitespace ](c: char) -> (answer: bool)
    ensures
        answer == is_white(c),
;

/// The words of a text that end before its last character, and the word that is still open.
/// `gaps` says which characters stand between words.
pub open spec fn split_words(text: Seq<char>, gaps: Seq<bool>) -> (Seq<Seq<char>>, Seq<char>)
    decreases text.len(),
{
    if text.len() == 0 {
        (Seq::empty(), Seq::empty())
    } else {
        let (words, open) = split_words(text.drop_last(), gaps);
        if !gaps[text.len() - 1] {
            (words, open.push(text.last()))
        } else if open.len() > 0 {
            (words.push(open), Seq::empty())
        } else {
            (words, open)
        }
    }
}

/// The words of a text: the longest runs of characters without a gap.
pub open spec fn words_of(text: Seq<char>, gaps: Seq<bool>) -> Seq<Seq<char>> {
    let (words, open) = split_words(text, gaps);
    if open.len() > 0 {
        words.push(open)
    } else {
        words
    }
}

/// Splits a text into its words. `gaps` says which characters stand between words.
pub fn split_at_gaps(text: &Vec<char>, gaps: &Vec<bool>) -> (words: Vec<String>)
    requires
        text@.len() == gaps@.len(),
    ensures
        texts(words@) == words_of(text@, gaps@),
{
    let mut words: Vec<String> = Vec::new();
    let mut open = String::new();
    let mut length: usize = 0;
    let mut k: usize = 0;
    assert(texts(words@) =~= Seq::empty());
    while k < text.len()
        invariant
            k <= text@.len(),
            text@.len() == gaps@.len(),
            length <= k,
            length == open@.len(),
            (texts(words@), open@) == split_words(text@.take(k as int), gaps@),
        decreases text@.len() - k,
    {
        proof {
            assert(text@.take(k + 1).drop_last() =~= text@.take(k as int));
        }
        if !gaps[k] {
            open.push(text[k]);
            length += 1;
        } else if length > 0 {
            let ghost before = texts(words@);
            words.push(open);
            open = String::new();
            length = 0;
            assert(texts(words@) =~= before.push(words@.last()@));
            assert(open@ =~= Seq::empty());
        }
        k += 1;
    }
    assert(text@.take(text@.len() as int) =~= text@);
    if length > 0 {
        let ghost before = texts(words@);
        words.push(open);
        assert(texts(words@) =~= before.push(words@.last()@));
    }
    words
}

/// The gaps of a text: its white space.
pub open spec fn white_gaps(text: Seq<char>) -> Seq<bool> {
    text.map_values(|c: char| is_white(c))
}

/// Splits a text into its words, at white space.
pub fn split_at_white(text: &str) -> (words: Vec<String>)
    ensures
        texts(words@) == words_of(text@, white_gaps(text@)),
{
    let chars = chars_of(text);
    let mut gaps: Vec<bool> = Vec::new();
    let mut k: usize = 0;
    while k < chars.len()
        invariant
            k <= chars@.len(),
            gaps@ == white_gaps(chars@).take(k as int),
        decreases chars@.len() - k,
    {
        gaps.push(chars[k].is_whitespace());
        assert(white_gaps(chars@).take(k + 1) =~= white_gaps(chars@).take(k as int).push(
            white_gaps(chars@)[k as int],
        ));
        k += 1;
    }
    assert(white_gaps(chars@).take(chars@.len() as int) =~= white_gaps(chars@));
    split_at_gaps(&chars, &gaps)
}

/// The character cannot stand in a file name.
pub open spec fn is_reserved(c: char) -> bool {
    c == '/' || c == '\\' || c == ':' || c == '*' || c == '?' || c == '"' || c == '<' || c == '>'
        || c == '|'
}

/// The text without the characters that cannot stand in a file name.
pub open spec fn without_reserved(text: Seq<char>) -> Seq<char> {
    text.filter(|c: char| !is_reserved(c))
}

/// Leaves out the characters that cannot stand in a file name.
pub fn drop_reserved(text: &str) -> (clean: String)
    ensures
        clean@ == without_reserved(text@),
{
    let chars = chars_of(text);
    let mut clean = String::new();
    let ghost kept = |c: char| !is_reserved(c);
    proof {
        reveal(Seq::filter);
        assert(chars@.take(0).filter(kept) =~= Seq::empty());
    }
    let mut k: usize = 0;
    while k < chars.len()
        invariant
            k <= chars@.len(),
            kept == (|c: char| !is_reserved(c)),
            clean@ == chars@.take(k as int).filter(kept),
        decreases chars@.len() - k,
    {
        proof {
            assert(chars@.take(k + 1).drop_last() =~= chars@.take(k as int));
            assert(chars@.take(k + 1).last() == chars@[k as int]);
            reveal(Seq::filter);
        }
        let c: char = chars[k];
        if !(c == '/' || c == '\\' || c == ':' || c == '*' || c == '?' || c == '"' || c == '<'
            || c == '>' || c == '|') {
            clean.push(c);
        }
        k += 1;
    }
    assert(chars@.take(chars@.len() as int) =~= chars@);
    clean
}

/// The file is a video or describes one.
pub open spec fn is_main_file(name: Seq<char>) -> bool {
    ".mp4"@.is_suffix_of(name) || ".mkv"@.is_suffix_of(name) || ".flv"@.is_suffix_of(name)
        || ".webm"@.is_suffix_of(name) || ".nfo"@.is_suffix_of(name)
}

/// The file is one that is kept for a video.
pub open spec fn is_video_file(name: Seq<char>) -> bool {
    is_main_file(name) || ".tmp_video"@.is_suffix_of(name) || ".tmp_audio"@.is_suffix_of(name)
        || ".jpg"@.is_suffix_of(name) || ".png"@.is_suffix_of(name) || ".ass"@.is_suffix_of(name)
        || ".srt"@.is_suffix_of(name)
}

fn has_main_ending(name: &str) -> (answer: bool)
    ensures
        answer == is_main_file(name@),
{
    ends_with(name, ".mp4") || ends_with(name, ".mkv") || ends_with(name, ".flv") || ends_with(
        name,
        ".webm",
    ) || ends_with(name, ".nfo")
}

fn has_video_ending(name: &str) -> (answer: bool)
    ensures
        answer == is_video_file(name@),
{
    has_main_ending(name) || ends_with(name, ".tmp_video") || ends_with(name, ".tmp_audio")
        || ends_with(name, ".jpg") || ends_with(name, ".png") || ends_with(name, ".ass")
        || ends_with(name, ".srt")
}

/// The number of words of a title that a file is looked for by.
pub const KEYWORDS: usize = 3;

/// A word of the title by which the file is known: one of the first few, of more than two bytes.
pub open spec fn is_named_by(name: Seq<char>, words: Seq<Seq<char>>, at: int) -> bool {
    0 <= at < words.len() && at < KEYWORDS && byte_len(words[at]) > 2 && occurs(name, words[at])
}

/// The file shows that its folder belongs to the video: it is kept for a video and holds its id in
/// its name, or it is a video or describes one and holds a word of the title in its name. `title`
/// is the title without the characters that cannot stand in a file name; one of three bytes or
/// less says nothing.
pub open spec fn file_shows_video(
    name: Seq<char>,
    bvid: Seq<char>,
    title: Seq<char>,
    words: Seq<Seq<char>>,
) -> bool {
    ||| occurs(name, bvid) && is_video_file(name)
    ||| is_main_file(name) && byte_len(title) > 3 && exists|at: int|
        #[trigger] is_named_by(name, words, at)
}

/// Whether the file shows that its folder belongs to the video. All texts are in lower case.
pub fn shows_video(name: &str, bvid: &str, title: &str, words: &Vec<String>) -> (answer: bool)
    ensures
        answer == file_shows_video(name@, bvid@, title@, texts(words@)),
{
    if contains(name, bvid) && has_video_ending(name) {
        return true;
    }
    if byte_length(title) <= 3 || !has_main_ending(name) {
        return false;
    }
    let mut k: usize = 0;
    while k < words.len() && k < KEYWORDS
        invariant
            k <= words@.len(),
            byte_len(title@) > 3,
            is_main_file(name@),
            forall|at: int| 0 <= at < k ==> !#[trigger] is_named_by(name@, texts(words@), at),
        decreases words@.len() - k,
    {
        assert(texts(words@)[k as int] == words@[k as int]@);
        if byte_length(words[k].as_str()) > 2 && contains(name, words[k].as_str()) {
            assert(is_named_by(name@, texts(words@), k as int));
            return true;
        }
        k += 1;
    }
    false
}

/// What is found out about a folder, and about the path where the video is recorded to be.
#[derive(Debug, Clone)]
pub struct FolderFacts {
    /// The folder is there.
    pub present: bool,
    /// The components of the path of the folder, if each of them is a text.
    pub folder_parts: Option<Vec<String>>,
    /// The components of the recorded path.
    pub path_parts: Vec<String>,
    /// The path of the folder, with what is no text in it replaced.
    pub folder_text: String,
    /// The recorded path.
    pub path_text: String,
    /// The name of the folder, if its path ends with one that is a text.
    pub folder_name: Option<String>,
    /// The name that the recorded path ends with, if it does.
    pub path_name: Option<String>,
    /// The names of the files in the folder, if they can be listed.
    pub files: Option<Vec<String>>,
}

/// The path of the folder is the recorded one, component by component.
pub open spec fn same_path(facts: FolderFacts) -> bool {
    facts.folder_parts matches Some(parts) && texts(parts@) == texts(facts.path_parts@)
}

/// The two paths end with the same name.
pub open spec fn same_name(facts: FolderFacts) -> bool {
    facts.folder_name matches Some(own) && facts.path_name matches Some(recorded) && own@
        == recorded@
}

/// The path of the folder shows that it belongs to the video.
pub open spec fn path_shows_video(facts: FolderFacts) -> bool {
    ||| same_path(facts)
    ||| with_replaced(facts.folder_text@, '\\', '/') == with_replaced(
        facts.path_text@,
        '\\',
        '/',
    )
    ||| same_name(facts)
}

fn same_texts(a: &Vec<String>, b: &Vec<String>) -> (same: bool)
    ensures
        same == (texts(a@) == texts(b@)),
{
    if a.len() != b.len() {
        assert(texts(a@).len() != texts(b@).len());
        return false;
    }
    let mut k: usize = 0;
    while k < a.len()
        invariant
            k <= a@.len(),
            a@.len() == b@.len(),
            forall|i: int| 0 <= i < k ==> #[trigger] texts(a@)[i] == texts(b@)[i],
        decreases a@.len() - k,
    {
        assert(texts(a@)[k as int] == a@[k as int]@);
        assert(texts(b@)[k as int] == b@[k as int]@);
        if !same_text(a[k].as_str(), b[k].as_str()) {
            return false;
        }
        k += 1;
    }
    assert(texts(a@) =~= texts(b@));
    true
}

/// Whether the path of the folder shows that it belongs to the video: it is the recorded one, it is
/// written like it but for the kind of slashes, or both end with the same name.
pub fn is_recorded_folder(facts: &FolderFacts) -> (answer: bool)
    ensures
        answer == path_shows_video(*facts),
{
    if let Some(parts) = &facts.folder_parts {
        if same_texts(parts, &facts.path_parts) {
            return true;
        }
    }
    let folder = replace_char(facts.folder_text.as_str(), '\\', '/');
    let recorded = replace_char(facts.path_text.as_str(), '\\', '/');
    if same_text(folder.as_str(), recorded.as_str()) {
        return true;
    }
    match (&facts.folder_name, &facts.path_name) {
        (Some(own), Some(name)) => same_text(own.as_str(), name.as_str()),
        _ => false,
    }
}

/// A file in the folder shows that it belongs to the video. All texts are in lower case.
pub open spec fn some_file_shows_video(
    files: Seq<Seq<char>>,
    bvid: Seq<char>,
    title: Seq<char>,
    words: Seq<Seq<char>>,
) -> bool {
    exists|i: int|
        0 <= i < files.len() && file_shows_video(#[trigger] files[i], bvid, title, words)
}

/// Whether a file in the folder shows that it belongs to the video. All texts are in lower case,
/// and `title` holds no character that cannot stand in a file name.
pub fn files_show_video(files: &Vec<String>, bvid: &str, title: &str, words: &Vec<String>) -> (answer:
    bool)
    ensures
        answer == some_file_shows_video(texts(files@), bvid@, title@, texts(words@)),
{
    let mut k: usize = 0;
    while k < files.len()
        invariant
            k <= files@.len(),
            forall|i: int|
                0 <= i < k ==> !file_shows_video(
                    #[trigger] texts(files@)[i],
                    bvid@,
                    title@,
                    texts(words@),
                ),
        decreases files@.len() - k,
    {
        assert(texts(files@)[k as int] == files@[k as int]@);
        if shows_video(files[k].as_str(), bvid, title, words) {
            return true;
        }
        k += 1;
    }
    false
}

/// The texts in lower case.
pub open spec fn all_lowercased(strings: Seq<String>) -> Seq<Seq<char>> {
    strings.map_values(|s: String| lowercased(s@))
}

/// The folder belongs to the video with this id and title.
pub open spec fn folder_is_of(facts: FolderFacts, bvid: Seq<char>, title: Seq<char>) -> bool {
    let clean = without_reserved(lowercased(title));
    facts.present && (path_shows_video(facts) || (facts.files matches Some(files)
        && some_file_shows_video(
        all_lowercased(files@),
        lowercased(bvid),
        clean,
        words_of(clean, white_gaps(clean)),
    )))
}

/// Whether a folder belongs to the video with this id and title: its path is the recorded one, or
/// as good as that, or a file in it is known by the id or by a word of the title.
pub fn is_same_video_folder(facts: &FolderFacts, bvid: &str, title: &str) -> (answer: bool)
    ensures
        answer == folder_is_of(*facts, bvid@, title@),
{
    if !facts.present {
        return false;
    }
    if is_recorded_folder(facts) {
        return true;
    }
    match &facts.files {
        None => false,
        Some(files) => {
            let mut lower: Vec<String> = Vec::new();
            let mut k: usize = 0;
            while k < files.len()
                invariant
                    k <= files@.len(),
                    texts(lower@) == all_lowercased(files@).take(k as int),
                decreases files@.len() - k,
            {
                let ghost before = lower@;
                lower.push(lowercase(files[k].as_str()));
                proof {
                    let all = all_lowercased(files@);
                    assert(texts(lower@) =~= texts(before).push(lower@.last()@));
                    assert(all.take(k + 1) =~= all.take(k as int).push(all[k as int]));
                }
                k += 1;
            }
            assert(all_lowercased(files@).take(files@.len() as int) =~= all_lowercased(files@));
            let clean = drop_reserved(lowercase(title).as_str());
            let words = split_at_white(clean.as_str());
            files_show_video(&lower, lowercase(bvid).as_str(), clean.as_str(), &words)
        },
    }
}

/// The word is the part of the text from `from` to before `to`, and holds no gap.
pub open spec fn is_run(
    word: Seq<char>,
    text: Seq<char>,
    gaps: Seq<bool>,
    from: int,
    to: int,
) -> bool {
    &&& 0 <= from < to <= text.len()
    &&& word == text.subrange(from, to)
    &&& forall|i: int| from <= i < to ==> !#[trigger] gaps[i]
}

/// The word is some part of the text without a gap.
pub open spec fn is_some_run(word: Seq<char>, text: Seq<char>, gaps: Seq<bool>) -> bool {
    exists|from: int, to: int| #[trigger] is_run(word, text, gaps, from, to)
}

proof fn runs_grow(
    word: Seq<char>,
    head: Seq<char>,
    text: Seq<char>,
    gaps: Seq<bool>,
    from: int,
    to: int,
)
    requires
        text.len() > 0,
        head == text.drop_last(),
        is_run(word, head, gaps, from, to),
    ensures
        is_run(word, text, gaps, from, to),
{
    assert(text.subrange(from, to) =~= head.subrange(from, to));
}

proof fn split_words_are_runs(text: Seq<char>, gaps: Seq<bool>)
    ensures
        ({
            let (words, open) = split_words(text, gaps);
            &&& forall|i: int|
                0 <= i < words.len() ==> is_some_run(#[trigger] words[i], text, gaps)
            &&& open.len() <= text.len()
            &&& open.len() > 0 ==> is_run(
                open,
                text,
                gaps,
                text.len() - open.len(),
                text.len() as int,
            )
        }),
    decreases text.len(),
{
    if text.len() > 0 {
        let head = text.drop_last();
        split_words_are_runs(head, gaps);
        let (before, held) = split_words(head, gaps);
        let (words, open) = split_words(text, gaps);
        assert forall|i: int| 0 <= i < words.len() implies is_some_run(
            #[trigger] words[i],
            text,
            gaps,
        ) by {
            if i < before.len() {
                assert(is_some_run(before[i], head, gaps));
                let (from, to) = choose|from: int, to: int| #[trigger]
                    is_run(before[i], head, gaps, from, to);
                runs_grow(before[i], head, text, gaps, from, to);
            } else {
                assert(words[i] == held);
                runs_grow(held, head, text, gaps, head.len() - held.len(), head.len() as int);
            }
        }
        if !gaps[text.len() - 1] {
            assert(open == held.push(text.last()));
            assert forall|i: int| text.len() - open.len() <= i < text.len() implies !(
            #[trigger] gaps[i]) by {
                if i < text.len() - 1 {
                    assert(is_run(held, head, gaps, head.len() - held.len(), head.len() as int));
                }
            }
            assert(open =~= text.subrange(text.len() - open.len(), text.len() as int)) by {
                assert forall|j: int| 0 <= j < held.len() implies held[j] == #[trigger] text[text.len()
                    - 1 - held.len() + j] by {
                    assert(held == head.subrange(head.len() - held.len(), head.len() as int));
                }
            }
        }
    }
}

/// Each word of a text is a part of it without a gap, and not empty.
pub proof fn words_are_runs(text: Seq<char>, gaps: Seq<bool>, at: int)
    requires
        0 <= at < words_of(text, gaps).len(),
    ensures
        is_some_run(words_of(text, gaps)[at], text, gaps),
{
    split_words_are_runs(text, gaps);
    let (words, open) = split_words(text, gaps);
    if at < words.len() {
        assert(is_some_run(words[at], text, gaps));
    } else {
        assert(words_of(text, gaps)[at] == open);
        assert(is_run(open, text, gaps, text.len() - open.len(), text.len() as int));
    }
}

/// A folder that is not there belongs to no video, and one whose path is the recorded one belongs
/// to it whatever it holds.
pub proof fn recorded_folder_is_known(facts: FolderFacts, bvid: Seq<char>, title: Seq<char>)
    ensures
        !facts.present ==> !folder_is_of(facts, bvid, title),
        facts.present && facts.folder_text@ == facts.path_text@ ==> folder_is_of(
            facts,
            bvid,
            title,
        ),
{
}

proof fn split_looks_at_its_own_gaps(text: Seq<char>, first: Seq<bool>, second: Seq<bool>)
    requires
        text.len() <= first.len(),
        text.len() <= second.len(),
        forall|i: int| 0 <= i < text.len() ==> first[i] == second[i],
    ensures
        split_words(text, first) == split_words(text, second),
    decreases text.len(),
{
    if text.len() > 0 {
        split_looks_at_its_own_gaps(text.drop_last(), first, second);
    }
}

proof fn split_behind_a_gap(a: Seq<char>, c: char, b: Seq<char>, ga: Seq<bool>, gb: Seq<bool>)
    requires
        a.len() == ga.len(),
        b.len() <= gb.len(),
    ensures
        split_words(a.push(c) + b, ga.push(true) + gb) == (
            words_of(a, ga) + split_words(b, gb).0,
            split_words(b, gb).1,
        ),
    decreases b.len(),
{
    let gaps = ga.push(true) + gb;
    let whole = a.push(c) + b;
    if b.len() == 0 {
        assert(whole =~= a.push(c));
        assert(whole.drop_last() =~= a);
        split_looks_at_its_own_gaps(a, gaps, ga);
        assert(gaps[a.len() as int]);
        assert(words_of(a, ga) + Seq::<Seq<char>>::empty() =~= words_of(a, ga));
        let (words, open) = split_words(a, ga);
        assert(split_words(whole, gaps).1 =~= Seq::<char>::empty());
    } else {
        split_behind_a_gap(a, c, b.drop_last(), ga, gb);
        assert(whole.drop_last() =~= a.push(c) + b.drop_last());
        assert(gaps[whole.len() - 1] == gb[b.len() - 1]);
        let (words, open) = split_words(b.drop_last(), gb);
        assert((words_of(a, ga) + words).push(open) =~= words_of(a, ga) + words.push(open));
    }
}

/// A gap separates: the words of a text are those in front of the gap and those behind it, and none
/// reaches across.
pub proof fn gaps_separate_words(
    before: Seq<char>,
    gap: char,
    after: Seq<char>,
    gaps_before: Seq<bool>,
    gaps_after: Seq<bool>,
)
    requires
        before.len() == gaps_before.len(),
        after.len() == gaps_after.len(),
    ensures
        words_of(before.push(gap) + after, gaps_before.push(true) + gaps_after) == words_of(
            before,
            gaps_before,
        ) + words_of(after, gaps_after),
{
    split_behind_a_gap(before, gap, after, gaps_before, gaps_after);
    let (words, open) = split_words(after, gaps_after);
    assert((words_of(before, gaps_before) + words).push(open) =~= words_of(before, gaps_before)
        + words.push(open));
}

/// A text without a gap is a single word, and an empty text has none.
pub proof fn unbroken_text_is_a_word(text: Seq<char>, gaps: Seq<bool>)
    requires
        text.len() == gaps.len(),
        forall|i: int| 0 <= i < gaps.len() ==> !#[trigger] gaps[i],
    ensures
        words_of(text, gaps) == if text.len() == 0 {
            Seq::<Seq<char>>::empty()
        } else {
            seq![text]
        },
{
    unbroken_text_stays_open(text, gaps);
    assert(words_of(text, gaps) =~= if text.len() == 0 {
        Seq::<Seq<char>>::empty()
    } else {
        seq![text]
    });
}

proof fn unbroken_text_stays_open(text: Seq<char>, gaps: Seq<bool>)
    requires
        text.len() <= gaps.len(),
        forall|i: int| 0 <= i < gaps.len() ==> !#[trigger] gaps[i],
    ensures
        split_words(text, gaps) == (Seq::<Seq<char>>::empty(), text),
    decreases text.len(),
{
    if text.len() > 0 {
        unbroken_text_stays_open(text.drop_last(), gaps);
        assert(!gaps[text.len() - 1]);
        assert(text.drop_last().push(text.last()) =~= text);
    } else {
        assert(text =~= Seq::empty());
    }
}

/// Nine characters cannot stand in a file name, and every other one can.
pub proof fn reserved_characters(c: char)
    ensures
        is_reserved(c) <==> "/\\:*?\"<>|"@.contains(c),
{
    reveal_strlit("/\\:*?\"<>|");
    let all = "/\\:*?\"<>|"@;
    assert(all.len() == 9);
    assert(all[0] == '/' && all[1] == '\\' && all[2] == ':' && all[3] == '*' && all[4] == '?'
        && all[5] == '"' && all[6] == '<' && all[7] == '>' && all[8] == '|');
    if all.contains(c) {
        let i = choose|i: int| 0 <= i < all.len() && all[i] == c;
    }
}

/// Leaving out the characters that cannot stand in a file name leaves all others, in their order.
pub proof fn only_reserved_characters_are_dropped(text: Seq<char>, c: char)
    ensures
        without_reserved(Seq::empty()) == Seq::<char>::empty(),
        without_reserved(text.push(c)) == if is_reserved(c) {
            without_reserved(text)
        } else {
            without_reserved(text).push(c)
        },
{
    reveal(Seq::filter);
    assert(text.push(c).drop_last() =~= text);
    assert(without_reserved(Seq::empty()) =~= Seq::<char>::empty());
}

proof fn ending_is_found(stem: Seq<char>, ending: Seq<char>)
    ensures
        ending.is_suffix_of(stem + ending),
{
    let whole = stem + ending;
    assert(whole.subrange(whole.len() - ending.len(), whole.len() as int) =~= ending);
}

/// Videos in any of four formats, and their descriptions, are main files; pictures, comments,
/// subtitles and what is left of a download are kept for a video too.
pub proof fn files_are_known_by_their_endings(stem: Seq<char>)
    ensures
        is_main_file(stem + ".mp4"@),
        is_main_file(stem + ".mkv"@),
        is_main_file(stem + ".flv"@),
        is_main_file(stem + ".webm"@),
        is_main_file(stem + ".nfo"@),
        is_video_file(stem + ".tmp_video"@),
        is_video_file(stem + ".tmp_audio"@),
        is_video_file(stem + ".jpg"@),
        is_video_file(stem + ".png"@),
        is_video_file(stem + ".ass"@),
        is_video_file(stem + ".srt"@),
        forall|name: Seq<char>| #[trigger] is_main_file(name) ==> is_video_file(name),
{
    ending_is_found(stem, ".mp4"@);
    ending_is_found(stem, ".mkv"@);
    ending_is_found(stem, ".flv"@);
    ending_is_found(stem, ".webm"@);
    ending_is_found(stem, ".nfo"@);
    ending_is_found(stem, ".tmp_video"@);
    ending_is_found(stem, ".tmp_audio"@);
    ending_is_found(stem, ".jpg"@);
    ending_is_found(stem, ".png"@);
    ending_is_found(stem, ".ass"@);
    ending_is_found(stem, ".srt"@);
}

proof fn ending_shows(name: Seq<char>, ending: Seq<char>)
    requires
        ending.is_suffix_of(name),
        ending.len() >= 2,
    ensures
        name.len() >= 2,
        name[name.len() - 1] == ending[ending.len() - 1],
        name[name.len() - 2] == ending[ending.len() - 2],
{
    let tail = name.subrange(name.len() - ending.len(), name.len() as int);
    assert(tail == ending);
    assert(tail[ending.len() - 1] == name[name.len() - 1]);
    assert(tail[ending.len() - 2] == name[name.len() - 2]);
}

/// Pictures, comments, subtitles and what is left of a download are no main files, and a text is not
/// kept for a video at all.
pub proof fn other_files_are_told_apart(stem: Seq<char>)
    ensures
        !is_main_file(stem + ".jpg"@),
        !is_main_file(stem + ".png"@),
        !is_main_file(stem + ".ass"@),
        !is_main_file(stem + ".srt"@),
        !is_main_file(stem + ".tmp_video"@),
        !is_main_file(stem + ".tmp_audio"@),
        !is_video_file(stem + ".txt"@),
{
    reveal_strlit(".mp4");
    reveal_strlit(".mkv");
    reveal_strlit(".flv");
    reveal_strlit(".webm");
    reveal_strlit(".nfo");
    reveal_strlit(".jpg");
    reveal_strlit(".png");
    reveal_strlit(".ass");
    reveal_strlit(".srt");
    reveal_strlit(".tmp_video");
    reveal_strlit(".tmp_audio");
    reveal_strlit(".txt");
    assert forall|name: Seq<char>| #[trigger] is_main_file(name) implies name.len() >= 2 && (
    name[name.len() - 1] == '4' || name[name.len() - 1] == 'v' || name[name.len() - 1] == 'm'
        || (name[name.len() - 1] == 'o' && name[name.len() - 2] == 'f')) by {
        if ".mp4"@.is_suffix_of(name) {
            ending_shows(name, ".mp4"@);
        } else if ".mkv"@.is_suffix_of(name) {
            ending_shows(name, ".mkv"@);
        } else if ".flv"@.is_suffix_of(name) {
            ending_shows(name, ".flv"@);
        } else if ".webm"@.is_suffix_of(name) {
            ending_shows(name, ".webm"@);
        } else {
            ending_shows(name, ".nfo"@);
        }
    }
    ending_is_found(stem, ".jpg"@);
    ending_shows(stem + ".jpg"@, ".jpg"@);
    ending_is_found(stem, ".png"@);
    ending_shows(stem + ".png"@, ".png"@);
    ending_is_found(stem, ".ass"@);
    ending_shows(stem + ".ass"@, ".ass"@);
    ending_is_found(stem, ".srt"@);
    ending_shows(stem + ".srt"@, ".srt"@);
    ending_is_found(stem, ".tmp_video"@);
    ending_shows(stem + ".tmp_video"@, ".tmp_video"@);
    ending_is_found(stem, ".tmp_audio"@);
    ending_shows(stem + ".tmp_audio"@, ".tmp_audio"@);
    let text = stem + ".txt"@;
    ending_is_found(stem, ".txt"@);
    ending_shows(text, ".txt"@);
    if is_video_file(text) {
        if ".tmp_video"@.is_suffix_of(text) {
            ending_shows(text, ".tmp_video"@);
        } else if ".tmp_audio"@.is_suffix_of(text) {
            ending_shows(text, ".tmp_audio"@);
        } else if ".jpg"@.is_suffix_of(text) {
            ending_shows(text, ".jpg"@);
        } else if ".png"@.is_suffix_of(text) {
            ending_shows(text, ".png"@);
        } else if ".ass"@.is_suffix_of(text) {
            ending_shows(text, ".ass"@);
        } else if ".srt"@.is_suffix_of(text) {
            ending_shows(text, ".srt"@);
            assert(text[text.len() - 2] == 'r');
        }
    }
}

/// A file that is kept for a video shows its video by the number in its name. A word of the title
/// shows it too, but only on a main file, only one of the first three words, only a word of more than
/// two bytes, and only where the whole title has more than three.
pub proof fn files_show_their_video(
    name: Seq<char>,
    bvid: Seq<char>,
    title: Seq<char>,
    words: Seq<Seq<char>>,
    at: int,
)
    ensures
        is_video_file(name) && occurs(name, bvid) ==> file_shows_video(name, bvid, title, words),
        0 <= at < words.len() && at < 3 && byte_len(words[at]) > 2 && occurs(name, words[at])
            && is_main_file(name) && byte_len(title) > 3 ==> file_shows_video(
            name,
            bvid,
            title,
            words,
        ),
        !is_video_file(name) ==> !file_shows_video(name, bvid, title, words),
        !occurs(name, bvid) && (!is_main_file(name) || byte_len(title) <= 3) ==> !file_shows_video(
            name,
            bvid,
            title,
            words,
        ),
        !occurs(name, bvid) && (forall|k: int|
            0 <= k < words.len() && k < 3 ==> byte_len(#[trigger] words[k]) <= 2 || !occurs(
                name,
                words[k],
            )) ==> !file_shows_video(name, bvid, title, words),
{
    if 0 <= at < words.len() && at < 3 && byte_len(words[at]) > 2 && occurs(name, words[at]) {
        assert(is_named_by(name, words, at));
    }
    if forall|k: int|
        0 <= k < words.len() && k < 3 ==> byte_len(#[trigger] words[k]) <= 2 || !occurs(
            name,
            words[k],
        ) {
        assert forall|k: int| !(#[trigger] is_named_by(name, words, k)) by {
            if 0 <= k < words.len() && k < 3 {
                assert(byte_len(words[k]) <= 2 || !occurs(name, words[k]));
            }
        }
    }
}

/// A folder that is there belongs to a video for one of four reasons, and for no other: its path is
/// the recorded one component by component, it is written like it but for the kind of slashes, both
/// end with the same name, or a file in it shows the video.
pub proof fn folder_belongs_for_a_reason(facts: FolderFacts, bvid: Seq<char>, title: Seq<char>)
    ensures
        ({
            let clean = without_reserved(lowercased(title));
            let same_parts = facts.folder_parts is Some && texts(facts.folder_parts->0@) == texts(
                facts.path_parts@,
            );
            let same_slashes = with_replaced(facts.folder_text@, '\\', '/') == with_replaced(
                facts.path_text@,
                '\\',
                '/',
            );
            let same_end = facts.folder_name is Some && facts.path_name is Some
                && facts.folder_name->0@ == facts.path_name->0@;
            let shown = facts.files is Some && exists|i: int|
                0 <= i < facts.files->0@.len() && file_shows_video(
                    lowercased((#[trigger] facts.files->0@[i])@),
                    lowercased(bvid),
                    clean,
                    words_of(clean, white_gaps(clean)),
                );
            folder_is_of(facts, bvid, title) <==> facts.present && (same_parts || same_slashes
                || same_end || shown)
        }),
{
    let clean = without_reserved(lowercased(title));
    let words = words_of(clean, white_gaps(clean));
    if let Some(files) = facts.files {
        let lower = all_lowercased(files@);
        if exists|i: int|
            0 <= i < files@.len() && file_shows_video(
                lowercased((#[trigger] files@[i])@),
                lowercased(bvid),
                clean,
                words,
            ) {
            let i = choose|i: int|
                0 <= i < files@.len() && file_shows_video(
                    lowercased((#[trigger] files@[i])@),
                    lowercased(bvid),
                    clean,
                    words,
                );
            assert(file_shows_video(lower[i], lowercased(bvid), clean, words));
        }
        if some_file_shows_video(lower, lowercased(bvid), clean, words) {
            let i = choose|i: int|
                0 <= i < lower.len() && file_shows_video(
                    #[trigger] lower[i],
                    lowercased(bvid),
                    clean,
                    words,
                );
            assert(file_shows_video(lowercased(files@[i]@), lowercased(bvid), clean, words));
        }
    }
}

/// A title is split exactly at its white space, of whichever kind.
pub proof fn white_space_stands_between_words(text: Seq<char>, at: int)
    requires
        0 <= at < text.len(),
    ensures
        white_gaps(text).len() == text.len(),
        white_gaps(text)[at] <==> is_white(text[at]),
        text[at] == ' ' || text[at] == '\t' || text[at] == '\n' || text[at] == '　' ==> white_gaps(
            text,
        )[at],
{
}

}
