//! Decimal text of integers and the text of booleans, as they appear in markup.

use vstd::prelude::*;
use vstd::string::*;

verus! {

/// The character of one decimal digit.
pub open spec fn digit(d: nat) -> char
    recommends
        d < 10,
{
    if d == 0 {
        '0'
    } else if d == 1 {
        '1'
    } else if d == 2 {
        '2'
    } else if d == 3 {
        '3'
    } else if d == 4 {
        '4'
    } else if d == 5 {
        '5'
    } else if d == 6 {
        '6'
    } else if d == 7 {
        '7'
    } else if d == 8 {
        '8'
    } else {
        '9'
    }
}

/// The decimal digits of `n`, most significant first, without leading zeros.
pub open spec fn decimal(n: nat) -> Seq<char>
    decreases n,
{
    if n < 10 {
        seq![digit(n)]
    } else {
        decimal(n / 10).push(digit(n % 10))
    }
}

/// The decimal text of an integer, with a minus sign in front of a negative one.
pub open spec fn signed_decimal(n: int) -> Seq<char> {
    if n < 0 {
        "-"@ + decimal((-n) as nat)
    } else {
        decimal(n as nat)
    }
}

/// The text of a boolean.
pub open spec fn bool_text(b: bool) -> Seq<char> {
    if b {
        "true"@
    } else {
        "false"@
    }
}

fn digit_str(d: u64) -> (s: &'static str)
    requires
        d < 10,
    ensures
        s@ == seq![digit(d as nat)],
{
    proof {
        reveal_strlit("0");
        reveal_strlit("1");
        reveal_strlit("2");
        reveal_strlit("3");
        reveal_strlit("4");
        reveal_strlit("5");
        reveal_strlit("6");
        reveal_strlit("7");
        reveal_strlit("8");
        reveal_strlit("9");
    }
    let s = if d == 0 {
        "0"
    } else if d == 1 {
        "1"
    } else if d == 2 {
        "2"
    } else if d == 3 {
        "3"
    } else if d == 4 {
        "4"
    } else if d == 5 {
        "5"
    } else if d == 6 {
        "6"
    } else if d == 7 {
        "7"
    } else if d == 8 {
        "8"
    } else {
        "9"
    };
    assert(s@ =~= seq![digit(d as nat)]);
    s
}

/// Appends the decimal digits of `n` to `buf`.
pub fn push_decimal(buf: &mut String, n: u64)
    ensures
        final(buf)@ == old(buf)@ + decimal(n as nat),
    decreases n,
{
    if n >= 10 {
        push_decimal(buf, n / 10);
    }
    buf.append(digit_str(n % 10));
    assert(buf@ =~= old(buf)@ + decimal(n as nat));
}

/// Appends the decimal text of `n` to `buf`.
pub fn push_signed(buf: &mut String, n: i64)
    ensures
        final(buf)@ == old(buf)@ + signed_decimal(n as int),
{
    if n < 0 {
        buf.append("-");
        let magnitude: u64 = if n == i64::MIN {
            9223372036854775808u64
        } else {
            (-n) as u64
        };
        push_decimal(buf, magnitude);
        assert(buf@ =~= old(buf)@ + signed_decimal(n as int));
    } else {
        push_decimal(buf, n as u64);
    }
}

/// Appends `true` or `false` to `buf`.
pub fn push_bool(buf: &mut String, b: bool)
    ensures
        final(buf)@ == old(buf)@ + bool_text(b),
{
    if b {
        buf.append("true");
    } else {
        buf.append("false");
    }
}

/// The decimal text of `n`.
pub fn decimal_string(n: u64) -> (s: String)
    ensures
        s@ == decimal(n as nat),
{
    let mut s = String::new();
    push_decimal(&mut s, n);
    assert(s@ =~= decimal(n as nat));
    s
}

/// Concatenation does not depend on how its parts are grouped.
pub proof fn lemma_concat_assoc<A>(x: Seq<A>, y: Seq<A>, z: Seq<A>)
    ensures
        (x + y) + z == x + (y + z),
{
    assert((x + y) + z =~= x + (y + z));
}

/// Nothing, put behind a sequence, leaves the sequence as it is.
pub proof fn lemma_concat_empty<A>(x: Seq<A>)
    ensures
        x + Seq::<A>::empty() == x,
        Seq::<A>::empty() + x == x,
{
    assert(x + Seq::<A>::empty() =~= x);
    assert(Seq::<A>::empty() + x =~= x);
}

} // verus!
