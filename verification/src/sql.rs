//! Statements for the database, and the pieces that they are made of.

use vstd::prelude::*;

use crate::decimal::decimal_int;
use crate::text::{join, joined, texts};

verus! {

/// A value that is bound to a placeholder of a statement.
#[derive(Debug, Clone)]
pub enum SqlValue {
    Integer(i64),
    Text(String),
}

/// A bound value.
pub enum ValueView {
    Integer(int),
    Text(Seq<char>),
}

impl View for SqlValue {
    type V = ValueView;

    open spec fn view(&self) -> ValueView {
        match self {
            SqlValue::Integer(number) => ValueView::Integer(*number as int),
            SqlValue::Text(text) => ValueView::Text(text@),
        }
    }
}

/// The bound values in order.
pub open spec fn values_view(values: Seq<SqlValue>) -> Seq<ValueView> {
    values.map_values(|value: SqlValue| value@)
}

/// A statement with the values of its placeholders.
#[derive(Debug, Clone)]
pub struct SqlStatement {
    pub sql: String,
    pub values: Vec<SqlValue>,
}

/// A list of numbers as JSON.
pub open spec fn json_numbers(numbers: Seq<i64>) -> Seq<char> {
    "["@ + joined(numbers.map_values(|number: i64| decimal_int(number as int)), ","@) + "]"@
}

/// Writes a list of numbers as JSON.
///
/// Calls `serde_json::to_string` on a list of `i64`. Trusted: it succeeds, since neither a list nor
/// an integer refuses to be written and memory takes every byte, and it writes the numbers in
/// decimal, separated by commas, between square brackets.
#[verifier::external_body]
pub(crate) fn numbers_to_json(numbers: &Vec<i64>) -> (text: Option<String>)
    ensures
        text is Some,
        text matches Some(json) ==> json@ == json_numbers(numbers@),
{
    serde_json::to_string(numbers).ok()
}

/// As many placeholders as asked for, separated by commas.
pub open spec fn placeholder_list(count: nat) -> Seq<char> {
    joined(Seq::new(count, |i: int| "?"@), ","@)
}

/// As many placeholders as asked for, separated by commas.
pub fn placeholders(count: usize) -> (list: String)
    ensures
        list@ == placeholder_list(count as nat),
{
    let mut marks: Vec<String> = Vec::new();
    let mut k: usize = 0;
    while k < count
        invariant
            k <= count,
            marks@.len() == k,
            forall|i: int| 0 <= i < k ==> (#[trigger] marks@[i])@ == "?"@,
        decreases count - k,
    {
        marks.push("?".to_owned());
        k += 1;
    }
    assert(texts(marks@) =~= Seq::new(count as nat, |i: int| "?"@));
    join(&marks, ",")
}

/// A list of placeholders has one placeholder for each value, and one comma between neighbours.
pub proof fn placeholder_list_length(count: nat)
    ensures
        placeholder_list(count).len() == if count == 0 { 0 } else { 2 * count - 1 },
    decreases count,
{
    reveal_strlit("?");
    reveal_strlit(",");
    let marks = Seq::new(count, |i: int| "?"@);
    if count > 1 {
        placeholder_list_length((count - 1) as nat);
        assert(marks.drop_last() =~= Seq::new((count - 1) as nat, |i: int| "?"@));
    }
}

/// The number is in the list.
pub open spec fn is_listed(numbers: Seq<i64>, number: i64) -> bool {
    exists|i: int| 0 <= i < numbers.len() && #[trigger] numbers[i] == number
}

/// Whether the number is in the list.
pub fn lists(numbers: &Vec<i64>, number: i64) -> (found: bool)
    ensures
        found == is_listed(numbers@, number),
{
    let mut k: usize = 0;
    while k < numbers.len()
        invariant
            k <= numbers@.len(),
            forall|i: int| 0 <= i < k ==> #[trigger] numbers@[i] != number,
        decreases numbers@.len() - k,
    {
        if numbers[k] == number {
            assert(numbers@[k as int] == number);
            return true;
        }
        k += 1;
    }
    false
}

/// The numbers of the first list that are not in the second, in order.
pub open spec fn without(numbers: Seq<i64>, excluded: Seq<i64>) -> Seq<i64> {
    numbers.filter(|number: i64| !is_listed(excluded, number))
}

/// The numbers of the first list that are not in the second, in order.
pub fn numbers_without(numbers: &Vec<i64>, excluded: &Vec<i64>) -> (rest: Vec<i64>)
    ensures
        rest@ == without(numbers@, excluded@),
{
    let mut rest: Vec<i64> = Vec::new();
    let ghost kept = |number: i64| !is_listed(excluded@, number);
    proof {
        reveal(Seq::filter);
        assert(numbers@.take(0).filter(kept) =~= Seq::empty());
    }
    let mut k: usize = 0;
    while k < numbers.len()
        invariant
            k <= numbers@.len(),
            kept == (|number: i64| !is_listed(excluded@, number)),
            rest@ == numbers@.take(k as int).filter(kept),
        decreases numbers@.len() - k,
    {
        proof {
            assert(numbers@.take(k + 1).drop_last() =~= numbers@.take(k as int));
            assert(numbers@.take(k + 1).last() == numbers@[k as int]);
            reveal(Seq::filter);
        }
        let number: i64 = numbers[k];
        if !lists(excluded, number) {
            rest.push(number);
        }
        k += 1;
    }
    assert(numbers@.take(numbers@.len() as int) =~= numbers@);
    rest
}

/// What is left is in the first list and not in the second.
pub proof fn without_excludes(numbers: Seq<i64>, excluded: Seq<i64>, number: i64)
    ensures
        is_listed(without(numbers, excluded), number) <==> is_listed(numbers, number) && !is_listed(
            excluded,
            number,
        ),
    decreases numbers.len(),
{
    reveal(Seq::filter);
    if numbers.len() > 0 {
        let head = numbers.drop_last();
        without_excludes(head, excluded, number);
        let before = without(head, excluded);
        let after = without(numbers, excluded);
        if is_listed(head, number) {
            let i = choose|i: int| 0 <= i < head.len() && #[trigger] head[i] == number;
            assert(numbers[i] == number);
        }
        if numbers.last() == number {
            assert(numbers[numbers.len() - 1] == number);
        }
        if is_listed(numbers, number) && numbers.last() != number {
            let i = choose|i: int| 0 <= i < numbers.len() && #[trigger] numbers[i] == number;
            assert(head[i] == number);
        }
        if is_listed(before, number) {
            let i = choose|i: int| 0 <= i < before.len() && #[trigger] before[i] == number;
            assert(after[i] == number);
        }
        if !is_listed(excluded, numbers.last()) {
            assert(after == before.push(numbers.last()));
            assert(after[before.len() as int] == numbers.last());
            if is_listed(after, number) {
                let i = choose|i: int| 0 <= i < after.len() && #[trigger] after[i] == number;
                if i < before.len() {
                    assert(before[i] == number);
                }
            }
        } else {
            assert(after == before);
        }
    }
}

/// A list of numbers is written in square brackets, with commas between the numbers.
pub proof fn numbers_are_listed(numbers: Seq<i64>, number: i64)
    ensures
        json_numbers(Seq::empty()) == "["@ + "]"@,
        json_numbers(seq![number]) == "["@ + decimal_int(number as int) + "]"@,
        numbers.len() > 0 ==> json_numbers(numbers.push(number)) == json_numbers(
            numbers,
        ).drop_last() + ","@ + decimal_int(number as int) + "]"@,
{
    reveal_strlit("[");
    reveal_strlit("]");
    let written = |n: i64| decimal_int(n as int);
    let none = Seq::<i64>::empty().map_values(written);
    assert(none =~= Seq::empty());
    assert(json_numbers(Seq::empty()) =~= "["@ + "]"@);
    let one = seq![number].map_values(written);
    assert(one.len() == 1 && one[0] == decimal_int(number as int));
    if numbers.len() > 0 {
        let before = numbers.map_values(written);
        let after = numbers.push(number).map_values(written);
        assert(after.drop_last() =~= before);
        assert(after.last() == decimal_int(number as int));
        assert(json_numbers(numbers).drop_last() =~= "["@ + joined(before, ","@));
        assert(json_numbers(numbers.push(number)) =~= json_numbers(numbers).drop_last() + ","@
            + decimal_int(number as int) + "]"@);
    }
}

/// There is one question mark for each value, with commas between them.
pub proof fn every_value_has_a_placeholder(count: nat)
    ensures
        placeholder_list(0) == Seq::<char>::empty(),
        placeholder_list(1) == "?"@,
        count > 0 ==> placeholder_list(count + 1) == placeholder_list(count) + ","@ + "?"@,
{
    let none = Seq::new(0, |i: int| "?"@);
    assert(none =~= Seq::empty());
    let one = Seq::new(1, |i: int| "?"@);
    assert(one[0] == "?"@);
    if count > 0 {
        let more = Seq::new(count + 1, |i: int| "?"@);
        assert(more.drop_last() =~= Seq::new(count, |i: int| "?"@));
    }
}

}
