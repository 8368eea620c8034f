//! Decimal text for the numbers that addresses and reports carry.

use vstd::prelude::*;
use vstd::string::*;

verus! {

/// The character of one decimal digit.
pub open spec fn digit(d: int) -> char {
    if d == 0 {
        '0'
    } else if d == 1 {
        '1'
    } else if d == 2 {
        '2'
    } else if d == 3 {
        '3'
    } else if d == 4 {
        '4'
    } else if d == 5 {
        '5'
    } else if d == 6 {
        '6'
    } else if d == 7 {
        '7'
    } else if d == 8 {
        '8'
    } else {
        '9'
    }
}

/// The decimal notation of a number: no sign, and no leading zero but for
/// zero itself.
pub open spec fn decimal(n: nat) -> Seq<char>
    decreases n,
{
    if n < 10 {
        seq![digit(n as int)]
    } else {
        decimal(n / 10).push(digit((n % 10) as int))
    }
}

/// The notation of a number below a hundred in exactly two digits.
pub open spec fn two_digits(n: nat) -> Seq<char>
    recommends
        n < 100,
{
    seq![digit((n / 10) as int), digit((n % 10) as int)]
}

/// A count of hundredths written as a number with two decimal places.
pub open spec fn hundredths(n: nat) -> Seq<char> {
    decimal(n / 100) + seq!['.'] + two_digits(n % 100)
}

/// `prefix` followed by `detail`.
pub fn prefixed(prefix: &str, detail: &str) -> (text: String)
    ensures
        text@ == prefix@ + detail@,
{
    let mut text = String::from_str(prefix);
    text.append(detail);
    text
}

/// The text of one decimal digit.
fn digit_text(d: u8) -> (text: &'static str)
    requires
        d < 10,
    ensures
        text@ == seq![digit(d as int)],
{
    proof {
        reveal_strlit("0");
        reveal_strlit("1");
        reveal_strlit("2");
        reveal_strlit("3");
        reveal_strlit("4");
        reveal_strlit("5");
        reveal_strlit("6");
        reveal_strlit("7");
        reveal_strlit("8");
        reveal_strlit("9");
    }
    let text = if d == 0 {
        "0"
    } else if d == 1 {
        "1"
    } else if d == 2 {
        "2"
    } else if d == 3 {
        "3"
    } else if d == 4 {
        "4"
    } else if d == 5 {
        "5"
    } else if d == 6 {
        "6"
    } else if d == 7 {
        "7"
    } else if d == 8 {
        "8"
    } else {
        "9"
    };
    assert(text@ =~= seq![digit(d as int)]);
    text
}

/// Appends the decimal notation of `n` to `text`.
pub fn append_decimal(text: &mut String, n: u128)
    ensures
        final(text)@ == old(text)@ + decimal(n as nat),
    decreases n,
{
    if n >= 10 {
        append_decimal(text, n / 10);
    }
    let last = (n % 10) as u8;
    text.append(digit_text(last));
    proof {
        if n >= 10 {
            assert(text@ =~= old(text)@ + decimal((n / 10) as nat).push(digit(last as int)));
        } else {
            assert(text@ =~= old(text)@ + seq![digit(n as int)]);
        }
    }
}

/// Appends `n`, a count of hundredths, as a number with two decimal places.
pub fn append_hundredths(text: &mut String, n: u128)
    ensures
        final(text)@ == old(text)@ + hundredths(n as nat),
{
    append_decimal(text, n / 100);
    text.append(".");
    let rest = (n % 100) as u8;
    text.append(digit_text(rest / 10));
    text.append(digit_text(rest % 10));
    proof {
        reveal_strlit(".");
        assert(text@ =~= old(text)@ + hundredths(n as nat));
    }
}

/// The decimal notation of `n`.
pub fn decimal_text(n: u128) -> (text: String)
    ensures
        text@ == decimal(n as nat),
{
    let mut text = String::new();
    append_decimal(&mut text, n);
    assert(text@ =~= decimal(n as nat));
    text
}

} // verus!
