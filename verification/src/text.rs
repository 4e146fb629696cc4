//! Building the text of table cells.

use vstd::prelude::*;

verus! {

/// `String::push`: the string with `ch` appended.
pub assume_specification[ String::push ](s: &mut String, ch: char)
    ensures
        final(s)@ == old(s)@.push(ch),
;

/// The character of a decimal digit.
pub open spec fn digit(d: nat) -> char {
    if d == 0 {
        '0'
    } else if d == 1 {
        '1'
    } else if d == 2 {
        '2'
    } else if d == 3 {
        '3'
    } else if d == 4 {
        '4'
    } else if d == 5 {
        '5'
    } else if d == 6 {
        '6'
    } else if d == 7 {
        '7'
    } else if d == 8 {
        '8'
    } else {
        '9'
    }
}

/// The decimal numeral of `n`: no sign, no leading zero but for zero itself.
pub open spec fn decimal(n: nat) -> Seq<char>
    decreases n,
{
    if n < 10 {
        seq![digit(n)]
    } else {
        decimal(n / 10).push(digit(n % 10))
    }
}

/// The character of the decimal digit `d`.
pub fn digit_char(d: u64) -> (c: char)
    requires
        d < 10,
    ensures
        c == digit(d as nat),
{
    if d == 0 {
        '0'
    } else if d == 1 {
        '1'
    } else if d == 2 {
        '2'
    } else if d == 3 {
        '3'
    } else if d == 4 {
        '4'
    } else if d == 5 {
        '5'
    } else if d == 6 {
        '6'
    } else if d == 7 {
        '7'
    } else if d == 8 {
        '8'
    } else {
        '9'
    }
}

/// Appends the decimal numeral of `n` to `out`.
pub fn push_decimal(out: &mut String, n: u64)
    ensures
        final(out)@ == old(out)@ + decimal(n as nat),
    decreases n,
{
    if n >= 10 {
        push_decimal(out, n / 10);
    }
    out.push(digit_char(n % 10));
    assert(final(out)@ =~= old(out)@ + decimal(n as nat));
}

/// A table with one more row reads as the table before with the text of
/// that row added.
pub proof fn lemma_table_push(before: Vec<Vec<String>>, after: Vec<Vec<String>>, row: Vec<String>)
    requires
        after@ == before@.push(row),
    ensures
        after.deep_view() == before.deep_view().push(row.deep_view()),
{
    assert(after.deep_view().len() == before.deep_view().len() + 1);
    assert forall|j: int| 0 <= j < after.deep_view().len() implies #[trigger] after.deep_view()[j]
        == before.deep_view().push(row.deep_view())[j] by {
        if j < before@.len() {
            assert(after@[j] == before@[j]);
        }
    }
    assert(after.deep_view() =~= before.deep_view().push(row.deep_view()));
}

} // verus!
