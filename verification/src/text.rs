//! Pieces of readable text that the debug forms of this crate's types are made of.

use std::time::Duration;
use vstd::prelude::*;
use vstd::string::*;

verus! {

/// The debug form of a string, in quotes and escaped.
pub uninterp spec fn quoted(text: Seq<char>) -> Seq<char>;

/// Calls the `Debug` formatting of `str` and trusts only that its text is a function of the
/// string; which characters are escaped, and how, is left unsaid.
#[verifier::external_body]
pub(crate) fn quote(text: &str) -> (form: String)
    ensures
        form@ == quoted(text@),
{
    format!("{:?}", text)
}

/// The debug form of a duration, such as `250ms`.
pub uninterp spec fn duration_form(duration: Duration) -> Seq<char>;

/// Calls the `Debug` formatting of `Duration` and trusts only that its text is a function of the
/// duration; the choice of unit and of digits is left unsaid.
#[verifier::external_body]
pub(crate) fn show_duration(duration: Duration) -> (form: String)
    ensures
        form@ == duration_form(duration),
{
    format!("{:?}", duration)
}

/// The decimal digits of `n`, without leading zeros.
pub open spec fn decimal(n: nat) -> Seq<char>
    decreases n,
{
    if n < 10 {
        digit(n)
    } else {
        decimal(n / 10) + digit(n % 10)
    }
}

/// The one-character text of a digit.
pub open spec fn digit(n: nat) -> Seq<char> {
    if n == 0 {
        "0"@
    } else if n == 1 {
        "1"@
    } else if n == 2 {
        "2"@
    } else if n == 3 {
        "3"@
    } else if n == 4 {
        "4"@
    } else if n == 5 {
        "5"@
    } else if n == 6 {
        "6"@
    } else if n == 7 {
        "7"@
    } else if n == 8 {
        "8"@
    } else {
        "9"@
    }
}

fn show_digit(n: u64) -> (form: &'static str)
    requires
        n < 10,
    ensures
        form@ == digit(n as nat),
{
    match n {
        0 => "0",
        1 => "1",
        2 => "2",
        3 => "3",
        4 => "4",
        5 => "5",
        6 => "6",
        7 => "7",
        8 => "8",
        _ => "9",
    }
}

/// Appends the decimal digits of `n` to `out`.
pub(crate) fn push_decimal(out: &mut String, n: u64)
    ensures
        final(out)@ == old(out)@ + decimal(n as nat),
    decreases n,
{
    if n >= 10 {
        push_decimal(out, n / 10);
        out.append(show_digit(n % 10));
    } else {
        out.append(show_digit(n));
    }
}

/// These numbers in decimal digits, with a comma and a space between any two.
pub open spec fn decimals(numbers: Seq<u64>) -> Seq<char>
    decreases numbers.len(),
{
    if numbers.len() == 0 {
        Seq::empty()
    } else if numbers.len() == 1 {
        decimal(numbers[0] as nat)
    } else {
        decimals(numbers.drop_last()) + ", "@ + decimal(numbers.last() as nat)
    }
}

/// Appends these numbers to `out`.
pub(crate) fn push_decimals(out: &mut String, numbers: &Vec<u64>)
    ensures
        final(out)@ == old(out)@ + decimals(numbers@),
{
    let mut i: usize = 0;
    assert(numbers@.take(0) =~= Seq::empty());
    while i < numbers.len()
        invariant
            i <= numbers.len(),
            out@ == old(out)@ + decimals(numbers@.take(i as int)),
        decreases numbers.len() - i,
    {
        let ghost before = numbers@.take(i as int);
        let ghost after = numbers@.take(i + 1);
        assert(after.drop_last() =~= before);
        if i > 0 {
            out.append(", ");
        }
        push_decimal(out, numbers[i]);
        assert(out@ =~= old(out)@ + decimals(after));
        i = i + 1;
    }
    assert(numbers@.take(numbers.len() as int) =~= numbers@);
}

/// The text of a boolean.
pub open spec fn truth(value: bool) -> Seq<char> {
    if value {
        "true"@
    } else {
        "false"@
    }
}

pub(crate) fn show_truth(value: bool) -> (form: &'static str)
    ensures
        form@ == truth(value),
{
    if value {
        "true"
    } else {
        "false"
    }
}

/// Decimal digits are what they say: a number below ten is the one character that stands so many
/// places after the zero, and the digits of a longer one are those of its tenth and then its last.
pub proof fn law_decimal_digits(n: nat)
    ensures
        n < 10 ==> decimal(n).len() == 1 && decimal(n)[0] as int == '0' as int + n,
        n >= 10 ==> decimal(n) == decimal(n / 10) + decimal(n % 10),
{
    reveal_strlit("0");
    reveal_strlit("1");
    reveal_strlit("2");
    reveal_strlit("3");
    reveal_strlit("4");
    reveal_strlit("5");
    reveal_strlit("6");
    reveal_strlit("7");
    reveal_strlit("8");
    reveal_strlit("9");
    assert(decimal(n % 10) == digit(n % 10));
}

/// A list of numbers grows at its end: nothing for no number, the digits alone for the first, and
/// a comma, a space and the digits for every other.
pub proof fn law_lists_grow_at_the_end(numbers: Seq<u64>, n: u64)
    ensures
        decimals(Seq::<u64>::empty()) == Seq::<char>::empty(),
        numbers.len() == 0 ==> decimals(numbers.push(n)) == decimal(n as nat),
        numbers.len() > 0 ==> decimals(numbers.push(n)) == decimals(numbers) + ", "@ + decimal(
            n as nat,
        ),
{
    assert(numbers.push(n).drop_last() =~= numbers);
}

/// A boolean reads `true` or `false`.
pub proof fn law_truth_reads_true_or_false()
    ensures
        truth(true) == "true"@,
        truth(false) == "false"@,
{
}

} // verus!
