//! Text as sequences of characters: searching, replacing, joining, measuring.

use vstd::prelude::*;
use vstd::utf8::{char_is_scalar, encode_utf8};

verus! {

/// `String::push` of std appends the character to the end of the string.
pub assume_specification[ String::push ](s: &mut String, c: char)
    ensures
        final(s)@ == old(s)@.push(c),
;

/// The pattern occurs in the text at position `at`.
pub open spec fn occurs_at(text: Seq<char>, pattern: Seq<char>, at: int) -> bool {
    &&& 0 <= at
    &&& at + pattern.len() <= text.len()
    &&& text.subrange(at, at + pattern.len()) == pattern
}

/// The pattern occurs somewhere in the text.
pub open spec fn occurs(text: Seq<char>, pattern: Seq<char>) -> bool {
    exists|at: int| occurs_at(text, pattern, at)
}

/// The text with every `from` turned into `to`.
pub open spec fn with_replaced(text: Seq<char>, from: char, to: char) -> Seq<char> {
    text.map_values(|c: char| if c == from { to } else { c })
}

/// The parts in order, with the separator between neighbours.
pub open spec fn joined(parts: Seq<Seq<char>>, separator: Seq<char>) -> Seq<char>
    decreases parts.len(),
{
    if parts.len() == 0 {
        Seq::empty()
    } else if parts.len() == 1 {
        parts[0]
    } else {
        joined(parts.drop_last(), separator) + separator + parts.last()
    }
}

/// The number of bytes that the text takes in UTF-8.
pub open spec fn byte_len(text: Seq<char>) -> nat {
    encode_utf8(text).len()
}

/// The views of the strings, in order.
pub open spec fn texts(strings: Seq<String>) -> Seq<Seq<char>> {
    strings.map_values(|s: String| s@)
}

/// The view of an optional string.
pub open spec fn text_option(s: Option<String>) -> Option<Seq<char>> {
    match s {
        Some(t) => Some(t@),
        None => None,
    }
}

/// The characters of a text.
pub fn chars_of(text: &str) -> (chars: Vec<char>)
    ensures
        chars@ == text@,
{
    let mut chars: Vec<char> = Vec::new();
    for c in it: text.chars()
        invariant
            chars@ == it.seq().take(it.index()),
            it.seq() == text@,
    {
        chars.push(c);
    }
    chars
}

/// Whether two texts are the same.
pub fn same_text(a: &str, b: &str) -> (same: bool)
    ensures
        same == (a@ == b@),
{
    a.to_owned() == b.to_owned()
}

/// The number of bytes that the text takes in UTF-8.
pub fn byte_length(text: &str) -> (length: usize)
    ensures
        length == byte_len(text@),
{
    text.as_bytes().len()
}

/// Whether the pattern occurs at the given position.
fn matches_at(text: &Vec<char>, pattern: &Vec<char>, at: usize) -> (found: bool)
    requires
        at + pattern@.len() <= text@.len(),
    ensures
        found == occurs_at(text@, pattern@, at as int),
{
    let length: usize = text.len();
    let mut k: usize = 0;
    while k < pattern.len()
        invariant
            k <= pattern@.len(),
            length == text@.len(),
            at + pattern@.len() <= length,
            forall|j: int| 0 <= j < k ==> #[trigger] pattern@[j] == text@[at + j],
        decreases pattern@.len() - k,
    {
        if text[at + k] != pattern[k] {
            assert(text@.subrange(at as int, at + pattern@.len())[k as int] != pattern@[k as int]);
            return false;
        }
        k += 1;
    }
    assert(text@.subrange(at as int, at + pattern@.len()) =~= pattern@);
    true
}

/// Whether the pattern occurs in the text.
pub fn contains(text: &str, pattern: &str) -> (found: bool)
    ensures
        found == occurs(text@, pattern@),
{
    let chars = chars_of(text);
    let wanted = chars_of(pattern);
    if wanted.len() > chars.len() {
        assert(!occurs(text@, pattern@));
        return false;
    }
    let last: usize = chars.len() - wanted.len();
    let mut at: usize = 0;
    while at <= last
        invariant
            at <= last + 1,
            last == chars@.len() - wanted@.len(),
            wanted@.len() <= chars@.len(),
            chars@ == text@,
            wanted@ == pattern@,
            forall|j: int| 0 <= j < at ==> !occurs_at(text@, pattern@, j),
        decreases last + 1 - at,
    {
        if matches_at(&chars, &wanted, at) {
            return true;
        }
        if at == last {
            assert forall|j: int| !occurs_at(text@, pattern@, j) by {
                if j > last {
                }
            }
            return false;
        }
        at += 1;
    }
    false
}

/// Whether the text ends with the given ending.
pub fn ends_with(text: &str, ending: &str) -> (found: bool)
    ensures
        found == ending@.is_suffix_of(text@),
{
    let chars = chars_of(text);
    let wanted = chars_of(ending);
    if wanted.len() > chars.len() {
        return false;
    }
    matches_at(&chars, &wanted, chars.len() - wanted.len())
}

/// The text with every `from` turned into `to`.
pub fn replace_char(text: &str, from: char, to: char) -> (replaced: String)
    ensures
        replaced@ == with_replaced(text@, from, to),
{
    let mut replaced = String::new();
    for c in it: text.chars()
        invariant
            replaced@ == with_replaced(it.seq().take(it.index()), from, to),
            it.seq() == text@,
    {
        replaced.push(if c == from { to } else { c });
        proof {
            let next = it.seq().take(it.index() + 1);
            assert(next =~= it.seq().take(it.index()).push(c));
            assert(replaced@ =~= with_replaced(next, from, to));
        }
    }
    assert(text@.take(text@.len() as int) =~= text@);
    replaced
}

/// The strings in order, with the separator between neighbours.
pub fn join(parts: &Vec<String>, separator: &str) -> (whole: String)
    ensures
        whole@ == joined(texts(parts@), separator@),
{
    let mut whole = String::new();
    let mut k: usize = 0;
    while k < parts.len()
        invariant
            k <= parts@.len(),
            whole@ == joined(texts(parts@).take(k as int), separator@),
        decreases parts@.len() - k,
    {
        proof {
            let next = texts(parts@).take(k + 1);
            assert(next.drop_last() =~= texts(parts@).take(k as int));
            if k == 0 {
                assert(whole@ + parts@[0]@ =~= parts@[0]@);
            }
        }
        if k > 0 {
            whole.append(separator);
        }
        whole.append(parts[k].as_str());
        k += 1;
    }
    assert(texts(parts@).take(parts@.len() as int) =~= texts(parts@));
    whole
}

/// The longest beginning of the text that takes no more than `limit` bytes.
pub open spec fn fitting_prefix(text: Seq<char>, limit: nat) -> Seq<char>
    decreases text.len(),
{
    if text.len() == 0 || byte_len(text) <= limit {
        text
    } else {
        fitting_prefix(text.drop_last(), limit)
    }
}

/// A text takes as many bytes as its parts.
pub proof fn bytes_add_up(first: Seq<char>, second: Seq<char>)
    ensures
        byte_len(first + second) == byte_len(first) + byte_len(second),
    decreases first.len(),
{
    if first.len() == 0 {
        assert(first + second =~= second);
    } else {
        bytes_add_up(first.drop_first(), second);
        assert((first + second).drop_first() =~= first.drop_first() + second);
    }
}

/// A text takes one to four bytes for each character.
pub proof fn bytes_match_chars(text: Seq<char>)
    ensures
        text.len() <= byte_len(text) <= 4 * text.len(),
    decreases text.len(),
{
    if text.len() > 0 {
        bytes_match_chars(text.drop_first());
    }
}

/// A beginning of the text that fits is the longest one if one more character does not fit.
proof fn prefix_ends_there(text: Seq<char>, limit: nat, count: int)
    requires
        0 <= count <= text.len(),
        byte_len(text.take(count)) <= limit,
        count < text.len() ==> byte_len(text.take(count + 1)) > limit,
    ensures
        fitting_prefix(text, limit) == text.take(count),
    decreases text.len(),
{
    if count == text.len() {
        assert(text.take(count) =~= text);
    } else {
        let head = text.drop_last();
        assert(text =~= text.take(count + 1) + text.skip(count + 1));
        bytes_add_up(text.take(count + 1), text.skip(count + 1));
        assert(head.take(count) =~= text.take(count));
        if count < head.len() {
            assert(head.take(count + 1) =~= text.take(count + 1));
        }
        prefix_ends_there(head, limit, count);
    }
}

/// The longest beginning that fits does fit, and no longer one does.
pub proof fn fitting_prefix_is_longest(text: Seq<char>, limit: nat)
    ensures
        byte_len(fitting_prefix(text, limit)) <= limit,
        fitting_prefix(text, limit).len() <= text.len(),
        fitting_prefix(text, limit) == text.take(fitting_prefix(text, limit).len() as int),
        forall|count: int|
            fitting_prefix(text, limit).len() < count <= text.len() ==> byte_len(
                #[trigger] text.take(count),
            ) > limit,
    decreases text.len(),
{
    if text.len() == 0 || byte_len(text) <= limit {
        assert(text.take(text.len() as int) =~= text);
    } else {
        let head = text.drop_last();
        fitting_prefix_is_longest(head, limit);
        let length = fitting_prefix(text, limit).len() as int;
        assert(text.take(length) =~= head.take(length));
        assert forall|count: int| length < count <= text.len() implies byte_len(
            #[trigger] text.take(count),
        ) > limit by {
            if count == text.len() {
                assert(text.take(count) =~= text);
            } else {
                assert(text.take(count) =~= head.take(count));
            }
        }
    }
}

/// The number of bytes that a character takes in UTF-8.
fn width(c: char) -> (bytes: usize)
    ensures
        bytes == byte_len(seq![c]),
        1 <= bytes <= 4,
{
    proof {
        assert(seq![c].drop_first() =~= Seq::<char>::empty());
        assert(byte_len(Seq::<char>::empty()) == 0);
        char_is_scalar(c);
        bytes_match_chars(seq![c]);
    }
    let scalar: u32 = c as u32;
    if scalar <= 0x7f {
        1
    } else if scalar <= 0x7ff {
        2
    } else if scalar <= 0xffff {
        3
    } else {
        4
    }
}

/// The longest beginning of the text that takes no more than `limit` bytes.
pub fn fitting_text(text: &str, limit: usize) -> (prefix: String)
    ensures
        prefix@ == fitting_prefix(text@, limit as nat),
{
    let chars = chars_of(text);
    let mut prefix = String::new();
    let mut used: usize = 0;
    let mut k: usize = 0;
    while k < chars.len()
        invariant
            k <= chars@.len(),
            chars@ == text@,
            prefix@ == chars@.take(k as int),
            used == byte_len(prefix@),
            used <= limit,
        decreases chars@.len() - k,
    {
        let bytes: usize = width(chars[k]);
        proof {
            assert(chars@.take(k + 1) =~= prefix@ + seq![chars@[k as int]]);
            bytes_add_up(prefix@, seq![chars@[k as int]]);
        }
        if bytes > limit - used {
            proof {
                prefix_ends_there(text@, limit as nat, k as int);
            }
            return prefix;
        }
        prefix.push(chars[k]);
        assert(prefix@ =~= chars@.take(k + 1));
        used += bytes;
        k += 1;
    }
    proof {
        prefix_ends_there(text@, limit as nat, k as int);
    }
    prefix
}

/// `a` stands before `b` in the order of texts: at the first place where they differ, the smaller
/// character decides, and a proper prefix stands before what it is a prefix of.
pub open spec fn stands_before(a: Seq<char>, b: Seq<char>) -> bool
    decreases a.len(),
{
    if b.len() == 0 {
        false
    } else if a.len() == 0 {
        true
    } else if a[0] != b[0] {
        a[0] < b[0]
    } else {
        stands_before(a.drop_first(), b.drop_first())
    }
}

/// Whether `a` stands before `b` in the order of texts.
pub fn is_before(a: &str, b: &str) -> (answer: bool)
    ensures
        answer == stands_before(a@, b@),
{
    let left = chars_of(a);
    let right = chars_of(b);
    let mut k: usize = 0;
    assert(left@.skip(0) =~= left@);
    assert(right@.skip(0) =~= right@);
    while k < left.len() && k < right.len()
        invariant
            k <= left@.len(),
            k <= right@.len(),
            left@ == a@,
            right@ == b@,
            stands_before(a@, b@) == stands_before(left@.skip(k as int), right@.skip(k as int)),
        decreases left@.len() - k,
    {
        if left[k] != right[k] {
            return left[k] < right[k];
        }
        assert(left@.skip(k as int).drop_first() =~= left@.skip(k + 1));
        assert(right@.skip(k as int).drop_first() =~= right@.skip(k + 1));
        k += 1;
    }
    k < right.len()
}

/// Of three texts, what does not stand before the second does not stand before what the second
/// does not stand before.
pub proof fn order_is_transitive(a: Seq<char>, b: Seq<char>, c: Seq<char>)
    requires
        !stands_before(a, b),
        !stands_before(b, c),
    ensures
        !stands_before(a, c),
    decreases a.len(),
{
    if c.len() > 0 && a.len() > 0 && b.len() > 0 {
        if a[0] == c[0] && b[0] == a[0] {
            order_is_transitive(a.drop_first(), b.drop_first(), c.drop_first());
        }
    }
}

/// No two texts stand before each other, and two different ones are in some order.
pub proof fn order_is_total(a: Seq<char>, b: Seq<char>)
    ensures
        !(stands_before(a, b) && stands_before(b, a)),
        stands_before(a, b) || stands_before(b, a) || a == b,
    decreases a.len(),
{
    if a.len() > 0 && b.len() > 0 {
        order_is_total(a.drop_first(), b.drop_first());
        if a[0] == b[0] && a.drop_first() == b.drop_first() {
            assert(a =~= seq![a[0]] + a.drop_first());
            assert(b =~= seq![b[0]] + b.drop_first());
        }
    } else if a.len() == 0 && b.len() == 0 {
        assert(a =~= b);
    }
}

/// Of two texts that begin alike, the one with the smaller character at the first difference stands
/// before the other, whatever follows; and a text stands before every longer one that begins with it.
pub proof fn first_difference_decides(
    common: Seq<char>,
    x: char,
    y: char,
    rest_x: Seq<char>,
    rest_y: Seq<char>,
)
    ensures
        x != y ==> (stands_before(common + seq![x] + rest_x, common + seq![y] + rest_y) <==> x < y),
        stands_before(common, common + seq![y] + rest_y),
        !stands_before(common + seq![y] + rest_y, common),
        !stands_before(common, common),
    decreases common.len(),
{
    let a = common + seq![x] + rest_x;
    let b = common + seq![y] + rest_y;
    if common.len() > 0 {
        let tail = common.drop_first();
        first_difference_decides(tail, x, y, rest_x, rest_y);
        assert(a.drop_first() =~= tail + seq![x] + rest_x);
        assert(b.drop_first() =~= tail + seq![y] + rest_y);
        assert(a[0] == common[0] && b[0] == common[0]);
    } else {
        assert(a[0] == x && b[0] == y);
    }
}

/// Replacing keeps every character in its place but the one that is replaced, and leaves none of
/// those, unless it is replaced by itself.
pub proof fn only_one_character_is_replaced(text: Seq<char>, from: char, to: char, at: int)
    requires
        0 <= at < text.len(),
    ensures
        with_replaced(text, from, to).len() == text.len(),
        text[at] == from ==> with_replaced(text, from, to)[at] == to,
        text[at] != from ==> with_replaced(text, from, to)[at] == text[at],
        from != to ==> with_replaced(text, from, to)[at] != from,
{
}

/// Joining puts the separator between neighbours, and neither in front of the first part nor behind
/// the last.
pub proof fn parts_are_joined(parts: Seq<Seq<char>>, last: Seq<char>, separator: Seq<char>)
    ensures
        joined(Seq::empty(), separator) == Seq::<char>::empty(),
        joined(seq![last], separator) == last,
        parts.len() > 0 ==> joined(parts.push(last), separator) == joined(parts, separator)
            + separator + last,
{
    assert(seq![last][0] == last);
    assert(parts.push(last).drop_last() =~= parts);
}

/// A pattern that stands anywhere in a text occurs in it, and one that is longer than the text does
/// not.
pub proof fn patterns_are_found(before: Seq<char>, pattern: Seq<char>, after: Seq<char>, text: Seq<char>)
    ensures
        occurs(before + pattern + after, pattern),
        pattern.len() > text.len() ==> !occurs(text, pattern),
{
    let whole = before + pattern + after;
    let at = before.len() as int;
    assert(whole.subrange(at, at + pattern.len()) =~= pattern);
    assert(occurs_at(whole, pattern, at));
}

}
