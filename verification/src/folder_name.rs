//! The search for the name of a folder that no other video has.

use vstd::prelude::*;

use crate::clock::{format_utc, in_calendar, utc_text, Moment};
use crate::decimal::{decimal, decimal_int, decimal_int_is_injective, decimal_text};
use crate::text::text_option;

verus! {

/// The largest number that is tried.
pub const LAST_NUMBER: u32 = 1001;

/// The name that is tried.
#[derive(Debug, Clone, Copy, PartialEq, Eq, Structural)]
pub enum NameTry {
    /// The base name.
    Base,
    /// The base name with the date of publication.
    WithDate,
    /// The base name with the id of the video.
    WithBvid,
    /// The base name with a number.
    WithNumber(u32),
    /// The base name with a random number, which is taken without a test.
    Random,
}

/// What is found out about a name: it is free, it is that of the folder of this very video, or
/// another video has it.
#[derive(Debug, Clone, Copy, PartialEq, Eq, Structural)]
pub enum NameState {
    Free,
    Own,
    Taken,
}

/// What a folder name is made of.
#[derive(Debug, Clone)]
pub struct NameParts {
    pub base: String,
    /// The date of publication.
    pub date: String,
    pub bvid: String,
}

/// The date of publication, as it stands in a folder name. There is none if the time of publication
/// lies outside the calendar.
pub fn publication_date(published: Moment) -> (date: Option<String>)
    ensures
        date is Some <==> in_calendar(published),
        text_option(date) == utc_text(published, "%Y-%m-%d"@),
{
    format_utc(published, "%Y-%m-%d")
}

/// The base name with something appended.
pub open spec fn with_suffix(base: Seq<char>, suffix: Seq<char>) -> Seq<char> {
    base + "-"@ + suffix
}

/// The number that a random number gives: one of five digits.
pub open spec fn suffix_number(random: u32) -> int {
    random as int % 90000 + 10000
}

/// The name that is tried. `random` stands for a random number.
pub open spec fn tried_name(parts: NameParts, name_try: NameTry, random: u32) -> Seq<char> {
    match name_try {
        NameTry::Base => parts.base@,
        NameTry::WithDate => with_suffix(parts.base@, parts.date@),
        NameTry::WithBvid => with_suffix(parts.base@, parts.bvid@),
        NameTry::WithNumber(number) => with_suffix(parts.base@, decimal(number as nat)),
        NameTry::Random => with_suffix(parts.base@, decimal(suffix_number(random) as nat)),
    }
}

/// Gives the name that is tried. `random` stands for a random number.
pub fn candidate(parts: &NameParts, name_try: NameTry, random: u32) -> (name: String)
    ensures
        name@ == tried_name(*parts, name_try, random),
{
    let suffix = match name_try {
        NameTry::Base => {
            return parts.base.clone();
        },
        NameTry::WithDate => parts.date.clone(),
        NameTry::WithBvid => parts.bvid.clone(),
        NameTry::WithNumber(number) => decimal_text(number as u64),
        NameTry::Random => decimal_text((random % 90000 + 10000) as u64),
    };
    let mut name = parts.base.clone();
    name.append("-");
    name.append(suffix.as_str());
    name
}

/// A random number.
///
/// Calls `rand::random` for a `u32`. Nothing is claimed of the number: it is drawn anew at each
/// call.
#[verifier::external_body]
fn random_number() -> (number: u32) {
    rand::random::<u32>()
}

/// The base name with a random number of five digits appended.
pub fn random_name(parts: &NameParts) -> (name: String)
    ensures
        exists|random: u32| name@ == #[trigger] tried_name(*parts, NameTry::Random, random),
{
    candidate(parts, NameTry::Random, random_number())
}

/// The search goes no further: the name is taken as it is.
pub open spec fn is_chosen(name_try: NameTry, state: NameState) -> bool {
    match name_try {
        NameTry::Base => state != NameState::Taken,
        NameTry::Random => true,
        _ => state == NameState::Free,
    }
}

/// What is tried when a name was not chosen.
pub open spec fn try_after(name_try: NameTry) -> NameTry {
    match name_try {
        NameTry::Base => NameTry::WithDate,
        NameTry::WithDate => NameTry::WithBvid,
        NameTry::WithBvid => NameTry::WithNumber(1),
        NameTry::WithNumber(number) => if number >= LAST_NUMBER {
            NameTry::Random
        } else {
            NameTry::WithNumber((number + 1) as u32)
        },
        NameTry::Random => NameTry::Random,
    }
}

/// Judges a name that was tried. Gives what is tried next, or nothing if the name is chosen. That
/// a folder is that of this very video counts for the base name only.
pub fn next_try(name_try: NameTry, state: NameState) -> (next: Option<NameTry>)
    ensures
        next is None <==> is_chosen(name_try, state),
        next matches Some(following) ==> following == try_after(name_try),
{
    match name_try {
        NameTry::Base => match state {
            NameState::Taken => Some(NameTry::WithDate),
            _ => None,
        },
        NameTry::WithDate => match state {
            NameState::Free => None,
            _ => Some(NameTry::WithBvid),
        },
        NameTry::WithBvid => match state {
            NameState::Free => None,
            _ => Some(NameTry::WithNumber(1)),
        },
        NameTry::WithNumber(number) => match state {
            NameState::Free => None,
            _ => if number >= LAST_NUMBER {
                Some(NameTry::Random)
            } else {
                Some(NameTry::WithNumber(number + 1))
            },
        },
        NameTry::Random => None,
    }
}

/// How many tries may still follow.
pub open spec fn tries_left(name_try: NameTry) -> nat {
    match name_try {
        NameTry::Base => (LAST_NUMBER + 3) as nat,
        NameTry::WithDate => (LAST_NUMBER + 2) as nat,
        NameTry::WithBvid => (LAST_NUMBER + 1) as nat,
        NameTry::WithNumber(number) => if number >= LAST_NUMBER {
            1
        } else {
            (LAST_NUMBER - number + 1) as nat
        },
        NameTry::Random => 0,
    }
}

/// The name that a search from this try on ends with. `states` says what is found out about each
/// name.
pub open spec fn search(
    parts: NameParts,
    name_try: NameTry,
    states: spec_fn(Seq<char>) -> NameState,
    random: u32,
) -> (NameTry, Seq<char>)
    decreases tries_left(name_try),
{
    let name = tried_name(parts, name_try, random);
    if is_chosen(name_try, states(name)) || name_try == NameTry::Random {
        (name_try, name)
    } else {
        search(parts, try_after(name_try), states, random)
    }
}

/// Every try is followed by fewer tries, so that a search ends after a thousand and four of them.
pub proof fn search_ends(name_try: NameTry)
    requires
        name_try != NameTry::Random,
    ensures
        tries_left(try_after(name_try)) < tries_left(name_try) <= 1004,
{
}

/// A search ends with a name that is free, or with the base name of a folder that is that of this
/// very video, or with a random number.
pub proof fn chosen_name_is_free(
    parts: NameParts,
    name_try: NameTry,
    states: spec_fn(Seq<char>) -> NameState,
    random: u32,
)
    ensures
        ({
            let (chosen, name) = search(parts, name_try, states, random);
            &&& name == tried_name(parts, chosen, random)
            &&& chosen != NameTry::Random ==> states(name) == NameState::Free || (chosen
                == NameTry::Base && states(name) == NameState::Own)
        }),
    decreases tries_left(name_try),
{
    if name_try != NameTry::Random && !is_chosen(
        name_try,
        states(tried_name(parts, name_try, random)),
    ) {
        chosen_name_is_free(parts, try_after(name_try), states, random);
    }
}

/// A base name that is free, or that of the folder of this very video, is kept.
pub proof fn base_name_is_kept(
    parts: NameParts,
    states: spec_fn(Seq<char>) -> NameState,
    random: u32,
)
    requires
        states(parts.base@) != NameState::Taken,
    ensures
        search(parts, NameTry::Base, states, random).1 == parts.base@,
{
}

proof fn numbers_are_taken(
    parts: NameParts,
    from: u32,
    states: spec_fn(Seq<char>) -> NameState,
    random: u32,
    number: u32,
)
    requires
        from <= number <= LAST_NUMBER,
        search(parts, NameTry::WithNumber(from), states, random).0 == NameTry::Random,
    ensures
        states(tried_name(parts, NameTry::WithNumber(number), random)) != NameState::Free,
    decreases LAST_NUMBER - from,
{
    if from < number {
        numbers_are_taken(parts, (from + 1) as u32, states, random, number);
    }
}

/// A search ends with a random number only if every other name was tried and found taken.
pub proof fn random_is_the_last_resort(
    parts: NameParts,
    states: spec_fn(Seq<char>) -> NameState,
    random: u32,
    number: u32,
)
    requires
        1 <= number <= LAST_NUMBER,
        search(parts, NameTry::Base, states, random).0 == NameTry::Random,
    ensures
        states(tried_name(parts, NameTry::Base, random)) == NameState::Taken,
        states(tried_name(parts, NameTry::WithDate, random)) != NameState::Free,
        states(tried_name(parts, NameTry::WithBvid, random)) != NameState::Free,
        states(tried_name(parts, NameTry::WithNumber(number), random)) != NameState::Free,
{
    reveal_with_fuel(search, 4);
    numbers_are_taken(parts, 1, states, random, number);
}

/// Names with different numbers differ.
pub proof fn numbered_names_differ(parts: NameParts, a: u32, b: u32, random: u32)
    requires
        a != b,
    ensures
        tried_name(parts, NameTry::WithNumber(a), random) != tried_name(
            parts,
            NameTry::WithNumber(b),
            random,
        ),
{
    let first = tried_name(parts, NameTry::WithNumber(a), random);
    let second = tried_name(parts, NameTry::WithNumber(b), random);
    let from = (parts.base@ + "-"@).len() as int;
    if first == second {
        assert(first.skip(from) =~= decimal_int(a as int));
        assert(second.skip(from) =~= decimal_int(b as int));
        decimal_int_is_injective(a as int, b as int);
    }
}

/// A random number gives a number of five digits.
pub proof fn random_suffix_has_five_digits(random: u32)
    ensures
        10000 <= suffix_number(random) <= 99999,
{
}

/// Every name that is tried begins with the base name, and what is appended to it tells the tries
/// apart: nothing, the date of publication, the number of the video, or a number.
pub proof fn names_are_made_of_their_parts(parts: NameParts, number: u32, random: u32)
    ensures
        tried_name(parts, NameTry::Base, random) == parts.base@,
        tried_name(parts, NameTry::WithDate, random) == parts.base@ + "-"@ + parts.date@,
        tried_name(parts, NameTry::WithBvid, random) == parts.base@ + "-"@ + parts.bvid@,
        tried_name(parts, NameTry::WithNumber(number), random) == parts.base@ + "-"@ + decimal_int(
            number as int,
        ),
        tried_name(parts, NameTry::Random, random) == parts.base@ + "-"@ + decimal_int(
            10000 + random as int % 90000,
        ),
{
}

/// A name that another video has leads on to the name with the date, then to that with the number of
/// the video, then to the numbers from one on; a name that is free ends the search at once.
pub proof fn names_are_tried_in_turn(
    parts: NameParts,
    states: spec_fn(Seq<char>) -> NameState,
    random: u32,
)
    requires
        states(parts.base@) == NameState::Taken,
    ensures
        ({
            let dated = parts.base@ + "-"@ + parts.date@;
            let marked = parts.base@ + "-"@ + parts.bvid@;
            let first = parts.base@ + "-"@ + decimal_int(1);
            let found = search(parts, NameTry::Base, states, random).1;
            &&& states(dated) == NameState::Free ==> found == dated
            &&& states(dated) != NameState::Free && states(marked) == NameState::Free ==> found
                == marked
            &&& states(dated) != NameState::Free && states(marked) != NameState::Free && states(
                first,
            ) == NameState::Free ==> found == first
        }),
{
    reveal_with_fuel(search, 4);
}

/// A number that is taken leads on to the next one, up to one thousand and one; only then a random
/// number is drawn.
pub proof fn numbers_are_tried_in_turn(number: u32)
    ensures
        try_after(NameTry::WithBvid) == NameTry::WithNumber(1),
        number < 1001 ==> try_after(NameTry::WithNumber(number)) == NameTry::WithNumber(
            (number + 1) as u32,
        ),
        number >= 1001 ==> try_after(NameTry::WithNumber(number)) == NameTry::Random,
{
}

/// That a folder is that of this very video keeps the base name, and no other.
pub proof fn own_folder_keeps_the_base_name(number: u32)
    ensures
        is_chosen(NameTry::Base, NameState::Own),
        is_chosen(NameTry::Base, NameState::Free),
        !is_chosen(NameTry::Base, NameState::Taken),
        !is_chosen(NameTry::WithDate, NameState::Own),
        !is_chosen(NameTry::WithBvid, NameState::Own),
        !is_chosen(NameTry::WithNumber(number), NameState::Own),
        is_chosen(NameTry::WithDate, NameState::Free),
        is_chosen(NameTry::WithBvid, NameState::Free),
        is_chosen(NameTry::WithNumber(number), NameState::Free),
{
}

}
