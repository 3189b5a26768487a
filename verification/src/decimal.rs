//! Whole numbers in decimal notation, written and read.

use vstd::prelude::*;

verus! {

/// The character of a single decimal digit.
pub open spec fn digit(value: nat) -> char {
    if value == 0 {
        '0'
    } else if value == 1 {
        '1'
    } else if value == 2 {
        '2'
    } else if value == 3 {
        '3'
    } else if value == 4 {
        '4'
    } else if value == 5 {
        '5'
    } else if value == 6 {
        '6'
    } else if value == 7 {
        '7'
    } else if value == 8 {
        '8'
    } else {
        '9'
    }
}

/// A natural number in decimal, without leading zeros.
pub open spec fn decimal(value: nat) -> Seq<char>
    decreases value,
{
    if value < 10 {
        seq![digit(value)]
    } else {
        decimal(value / 10).push(digit(value % 10))
    }
}

/// An integer in decimal: a minus sign stands before a negative one.
pub open spec fn decimal_int(value: int) -> Seq<char> {
    if value < 0 {
        seq!['-'] + decimal((-value) as nat)
    } else {
        decimal(value as nat)
    }
}

/// An integer in decimal that takes at least two characters.
pub open spec fn two_digits(value: int) -> Seq<char> {
    if 0 <= value < 10 {
        seq!['0', digit(value as nat)]
    } else {
        decimal_int(value)
    }
}

/// The character is a decimal digit.
pub open spec fn is_digit(c: char) -> bool {
    '0' <= c <= '9'
}

/// The value of a decimal digit.
pub open spec fn digit_value(c: char) -> nat {
    (c as int - '0' as int) as nat
}

/// The text consists of at least one digit and of nothing else.
pub open spec fn is_digits(text: Seq<char>) -> bool {
    &&& text.len() > 0
    &&& forall|i: int| 0 <= i < text.len() ==> is_digit(#[trigger] text[i])
}

/// The number that a sequence of digits stands for.
pub open spec fn digits_value(text: Seq<char>) -> nat
    decreases text.len(),
{
    if text.len() == 0 {
        0
    } else {
        10 * digits_value(text.drop_last()) + digit_value(text.last())
    }
}

/// The integer that a text stands for: digits after at most one sign.
pub open spec fn integer_value(text: Seq<char>) -> Option<int> {
    if text.len() > 0 && (text[0] == '-' || text[0] == '+') {
        let digits = text.drop_first();
        if !is_digits(digits) {
            None
        } else if text[0] == '-' {
            Some(-(digits_value(digits) as int))
        } else {
            Some(digits_value(digits) as int)
        }
    } else if is_digits(text) {
        Some(digits_value(text) as int)
    } else {
        None
    }
}

/// The 32-bit integer that a text stands for, if it stands for one.
pub open spec fn i32_value(text: Seq<char>) -> Option<i32> {
    match integer_value(text) {
        Some(value) => if i32::MIN <= value <= i32::MAX {
            Some(value as i32)
        } else {
            None
        },
        None => None,
    }
}

/// The character of a single decimal digit.
fn digit_char(value: u64) -> (c: char)
    requires
        value < 10,
    ensures
        c == digit(value as nat),
{
    match value {
        0 => '0',
        1 => '1',
        2 => '2',
        3 => '3',
        4 => '4',
        5 => '5',
        6 => '6',
        7 => '7',
        8 => '8',
        _ => '9',
    }
}

/// Writes a natural number in decimal.
pub fn decimal_text(value: u64) -> (text: String)
    ensures
        text@ == decimal(value as nat),
    decreases value,
{
    if value < 10 {
        let mut text = String::new();
        text.push(digit_char(value));
        assert(text@ =~= seq![digit(value as nat)]);
        text
    } else {
        let mut text = decimal_text(value / 10);
        text.push(digit_char(value % 10));
        text
    }
}

/// Writes an integer in decimal.
pub fn integer_text(value: i64) -> (text: String)
    ensures
        text@ == decimal_int(value as int),
{
    if value < 0 {
        let magnitude: u64 = (-(value + 1)) as u64 + 1;
        let mut text = String::new();
        text.push('-');
        text.append(decimal_text(magnitude).as_str());
        assert(text@ =~= seq!['-'] + decimal(magnitude as nat));
        text
    } else {
        decimal_text(value as u64)
    }
}

/// Writes an integer in decimal with at least two characters.
pub fn two_digit_text(value: i32) -> (text: String)
    ensures
        text@ == two_digits(value as int),
{
    if 0 <= value && value < 10 {
        let mut text = String::new();
        text.push('0');
        text.push(digit_char(value as u64));
        assert(text@ =~= seq!['0', digit(value as nat)]);
        text
    } else {
        integer_text(value as i64)
    }
}

/// The value of a digit, or `None` for any other character.
fn value_of_digit(c: char) -> (value: Option<i64>)
    ensures
        value == if is_digit(c) { Some(digit_value(c) as i64) } else { None::<i64> },
{
    if '0' <= c && c <= '9' {
        Some((c as u32 - '0' as u32) as i64)
    } else {
        None
    }
}

/// More digits never make the number smaller.
proof fn digits_value_grows(text: Seq<char>, upto: int)
    requires
        0 <= upto <= text.len(),
    ensures
        digits_value(text.take(upto)) <= digits_value(text),
    decreases text.len() - upto,
{
    if upto == text.len() {
        assert(text.take(upto) =~= text);
    } else {
        digits_value_grows(text, upto + 1);
        assert(text.take(upto + 1).drop_last() =~= text.take(upto));
    }
}

/// Reads a 32-bit integer: an optional sign, then digits only.
///
/// The result is `None` where the text has another shape, or where the number does not fit.
pub fn parse_i32(text: &str) -> (value: Option<i32>)
    ensures
        value == i32_value(text@),
{
    let chars = crate::text::chars_of(text);
    let signed: bool = chars.len() > 0 && (chars[0] == '-' || chars[0] == '+');
    let negative: bool = signed && chars[0] == '-';
    let start: usize = if signed { 1 } else { 0 };
    let ghost digits = chars@.skip(start as int);
    if signed {
        assert(digits =~= chars@.drop_first());
    } else {
        assert(digits =~= chars@);
    }
    if start == chars.len() {
        return None;
    }
    let limit: i64 = 2147483648;
    let mut total: i64 = 0;
    let mut k: usize = start;
    while k < chars.len()
        invariant
            start <= k <= chars@.len(),
            digits == chars@.skip(start as int),
            limit == 2147483648,
            forall|i: int| 0 <= i < k - start ==> is_digit(#[trigger] digits[i]),
            0 <= total <= limit,
            total == digits_value(digits.take(k - start)),
            chars@ == text@,
            signed == (chars@.len() > 0 && (chars@[0] == '-' || chars@[0] == '+')),
            start == if signed { 1int } else { 0int },
            signed ==> digits == text@.drop_first(),
            !signed ==> digits == text@,
        decreases chars@.len() - k,
    {
        assert(digits[k - start] == chars@[k as int]);
        match value_of_digit(chars[k]) {
            None => {
                assert(!is_digits(digits));
                return None;
            },
            Some(d) => {
                proof {
                    let next = digits.take(k - start + 1);
                    assert(next.drop_last() =~= digits.take(k - start));
                    digits_value_grows(digits, k - start + 1);
                }
                total = total * 10 + d;
                if total > limit {
                    return None;
                }
            },
        }
        k += 1;
    }
    assert(digits.take(digits.len() as int) =~= digits);
    if negative {
        Some((-total) as i32)
    } else if total < limit {
        Some(total as i32)
    } else {
        None
    }
}

/// Reading the decimal text of a natural number gives the number back.
pub proof fn decimal_reads_back(value: nat)
    ensures
        is_digits(decimal(value)),
        digits_value(decimal(value)) == value,
    decreases value,
{
    if value < 10 {
        reveal_with_fuel(digits_value, 2);
        assert(decimal(value).drop_last() =~= Seq::empty());
    } else {
        decimal_reads_back(value / 10);
        assert(decimal(value).drop_last() =~= decimal(value / 10));
    }
}

/// Every 32-bit integer survives being written in decimal and read back.
pub proof fn i32_reads_back(value: i32)
    ensures
        i32_value(decimal_int(value as int)) == Some(value),
{
    if value < 0 {
        decimal_reads_back((-value) as nat);
        assert(decimal_int(value as int).drop_first() =~= decimal((-value) as nat));
    } else {
        decimal_reads_back(value as nat);
        assert(is_digit(decimal_int(value as int)[0]));
    }
}

/// Different integers have different decimal texts.
pub proof fn decimal_int_is_injective(a: int, b: int)
    requires
        decimal_int(a) == decimal_int(b),
    ensures
        a == b,
{
    decimal_reads_back(if a < 0 { (-a) as nat } else { a as nat });
    decimal_reads_back(if b < 0 { (-b) as nat } else { b as nat });
    if a < 0 {
        assert(decimal_int(a)[0] == '-');
        assert(decimal_int(a).drop_first() =~= decimal((-a) as nat));
    } else {
        assert(is_digit(decimal_int(a)[0]));
    }
    if b < 0 {
        assert(decimal_int(b)[0] == '-');
        assert(decimal_int(b).drop_first() =~= decimal((-b) as nat));
    } else {
        assert(is_digit(decimal_int(b)[0]));
    }
}

/// A number of one digit gets a zero in front, and any other number is written as it is; in both cases
/// it reads back.
pub proof fn two_digits_read_back(value: i32)
    ensures
        0 <= value < 10 ==> two_digits(value as int) == seq!['0'] + decimal(value as nat),
        value < 0 || value >= 10 ==> two_digits(value as int) == decimal_int(value as int),
        two_digits(value as int).len() >= 2,
        i32_value(two_digits(value as int)) == Some(value),
{
    i32_reads_back(value);
    if 0 <= value < 10 {
        let text = two_digits(value as int);
        assert(text =~= seq!['0'] + decimal(value as nat));
        assert(text.drop_last() =~= seq!['0']);
        assert(seq!['0'].drop_last() =~= Seq::<char>::empty());
        reveal_with_fuel(digits_value, 3);
    } else if value < 0 {
        decimal_reads_back((-value) as nat);
    } else {
        decimal_reads_back((value / 10) as nat);
        assert(decimal(value as nat).len() == decimal((value / 10) as nat).len() + 1);
    }
}

/// Each further digit counts ten times the digits before it and its own value more.
pub proof fn digits_count_by_place(text: Seq<char>, c: char)
    requires
        is_digit(c),
    ensures
        digits_value(Seq::empty()) == 0,
        digits_value(text.push(c)) == 10 * digits_value(text) + (c as int - 48),
{
    assert(text.push(c).drop_last() =~= text);
}

/// One sign may stand in front of the digits: a minus turns the number round, and a plus changes
/// nothing. A sign alone, and a text with any other character, is no number.
pub proof fn signs_are_read(digits: Seq<char>)
    requires
        is_digits(digits),
    ensures
        integer_value(digits) == Some(digits_value(digits) as int),
        integer_value(seq!['+'] + digits) == Some(digits_value(digits) as int),
        integer_value(seq!['-'] + digits) == Some(-(digits_value(digits) as int)),
        integer_value(seq!['+']) is None,
        integer_value(seq!['-']) is None,
        integer_value(Seq::empty()) is None,
{
    assert(is_digit(digits[0]));
    assert((seq!['+'] + digits).drop_first() =~= digits);
    assert((seq!['-'] + digits).drop_first() =~= digits);
    assert(seq!['+'].drop_first().len() == 0);
    assert(seq!['-'].drop_first().len() == 0);
}

/// A text that holds a character which is neither a digit nor a sign in front stands for no number.
pub proof fn other_characters_are_no_number(text: Seq<char>, at: int)
    requires
        0 <= at < text.len(),
        !('0' <= text[at] <= '9'),
        at > 0 || (text[0] != '-' && text[0] != '+'),
    ensures
        integer_value(text) is None,
        i32_value(text) is None,
{
    if text[0] == '-' || text[0] == '+' {
        assert(text.drop_first()[at - 1] == text[at]);
        assert(!is_digit(text.drop_first()[at - 1]));
    } else {
        assert(!is_digit(text[at]));
    }
}

}
