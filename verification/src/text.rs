//! Numbers as text: decimal integers, and quantities counted in thousandths.

use vstd::prelude::*;
use vstd::string::StringExecFns;

verus! {

/// The character of one decimal digit.
pub open spec fn digit(d: int) -> char {
    if d == 0 {
        '0'
    } else if d == 1 {
        '1'
    } else if d == 2 {
        '2'
    } else if d == 3 {
        '3'
    } else if d == 4 {
        '4'
    } else if d == 5 {
        '5'
    } else if d == 6 {
        '6'
    } else if d == 7 {
        '7'
    } else if d == 8 {
        '8'
    } else {
        '9'
    }
}

/// The decimal digits of `n`, most significant first, without leading zeros.
pub open spec fn digits(n: nat) -> Seq<char>
    decreases n,
{
    if n < 10 {
        seq![digit(n as int)]
    } else {
        digits(n / 10).push(digit((n % 10) as int))
    }
}

/// The decimal text of an integer, with a minus sign in front of a negative one.
pub open spec fn decimal(v: int) -> Seq<char> {
    if v < 0 {
        seq!['-'] + digits((-v) as nat)
    } else {
        digits(v as nat)
    }
}

/// The digits behind the decimal point of a number of thousandths `f`
/// between 1 and 999: three places, without the zeros at the end.
pub open spec fn fraction(f: nat) -> Seq<char> {
    if f % 10 != 0 {
        seq![digit((f / 100) as int), digit((f / 10 % 10) as int), digit((f % 10) as int)]
    } else if f / 10 % 10 != 0 {
        seq![digit((f / 100) as int), digit((f / 10 % 10) as int)]
    } else {
        seq![digit((f / 100) as int)]
    }
}

/// The text of a quantity of `m` thousandths: its whole part, and behind a
/// point its fraction where it has one.
pub open spec fn quantity(m: nat) -> Seq<char> {
    if m % 1000 == 0 {
        digits(m / 1000)
    } else {
        digits(m / 1000) + seq!['.'] + fraction(m % 1000)
    }
}

/// The text of the digit `d`.
fn digit_text(d: u64) -> (t: &'static str)
    requires
        d < 10,
    ensures
        t@ == seq![digit(d as int)],
{
    proof {
        reveal_strlit("0");
        reveal_strlit("1");
        reveal_strlit("2");
        reveal_strlit("3");
        reveal_strlit("4");
        reveal_strlit("5");
        reveal_strlit("6");
        reveal_strlit("7");
        reveal_strlit("8");
        reveal_strlit("9");
    }
    let t = if d == 0 {
        "0"
    } else if d == 1 {
        "1"
    } else if d == 2 {
        "2"
    } else if d == 3 {
        "3"
    } else if d == 4 {
        "4"
    } else if d == 5 {
        "5"
    } else if d == 6 {
        "6"
    } else if d == 7 {
        "7"
    } else if d == 8 {
        "8"
    } else {
        "9"
    };
    assert(t@ =~= seq![digit(d as int)]);
    t
}

/// Appends the decimal digits of `n` to `out`.
pub fn push_digits(out: &mut String, n: u64)
    ensures
        final(out)@ == old(out)@ + digits(n as nat),
    decreases n,
{
    if n >= 10 {
        push_digits(out, n / 10);
    }
    out.append(digit_text(n % 10));
    assert(out@ =~= old(out)@ + digits(n as nat));
}

/// The decimal text of `v`.
pub fn decimal_text(v: i64) -> (t: String)
    ensures
        t@ == decimal(v as int),
{
    let mut t = String::new();
    if v < 0 {
        proof {
            reveal_strlit("-");
        }
        t.append("-");
        push_digits(&mut t, (-(v as i128)) as u64);
    } else {
        push_digits(&mut t, v as u64);
    }
    assert(t@ =~= decimal(v as int));
    t
}

/// Appends the text of a quantity of `m` thousandths to `out`.
pub fn push_quantity(out: &mut String, m: u64)
    ensures
        final(out)@ == old(out)@ + quantity(m as nat),
{
    push_digits(out, m / 1000);
    let f = m % 1000;
    if f != 0 {
        proof {
            reveal_strlit(".");
        }
        out.append(".");
        out.append(digit_text(f / 100));
        if f % 10 != 0 {
            out.append(digit_text(f / 10 % 10));
            out.append(digit_text(f % 10));
        } else if f / 10 % 10 != 0 {
            out.append(digit_text(f / 10 % 10));
        }
    }
    assert(out@ =~= old(out)@ + quantity(m as nat));
}

} // verus!
