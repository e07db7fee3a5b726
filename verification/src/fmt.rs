//! Verified decimal formatting, used when events and messages are turned
//! into text.

use vstd::prelude::*;

verus! {

use vstd::string::StringExecFns;

/// The decimal digit character for `d` (0 through 9).
pub open spec fn digit_char(d: nat) -> char {
    if d == 0 {
        '0'
    } else if d == 1 {
        '1'
    } else if d == 2 {
        '2'
    } else if d == 3 {
        '3'
    } else if d == 4 {
        '4'
    } else if d == 5 {
        '5'
    } else if d == 6 {
        '6'
    } else if d == 7 {
        '7'
    } else if d == 8 {
        '8'
    } else {
        '9'
    }
}

/// The decimal representation of `n`, most significant digit first.
pub open spec fn dec_chars(n: nat) -> Seq<char>
    decreases n,
{
    if n < 10 {
        seq![digit_char(n)]
    } else {
        dec_chars(n / 10).push(digit_char(n % 10))
    }
}

/// The textual form of a signed number: a minus sign ahead of the digits for
/// negative values.
pub open spec fn i32_chars(n: i32) -> Seq<char> {
    if n < 0 {
        seq!['-'] + dec_chars((-(n as int)) as nat)
    } else {
        dec_chars(n as nat)
    }
}

/// Appends the single digit `d` to `s`.
fn push_digit(s: &mut String, d: u64)
    requires
        d < 10,
    ensures
        final(s)@ == old(s)@ + seq![digit_char(d as nat)],
{
    proof {
        reveal_strlit("0");
        reveal_strlit("1");
        reveal_strlit("2");
        reveal_strlit("3");
        reveal_strlit("4");
        reveal_strlit("5");
        reveal_strlit("6");
        reveal_strlit("7");
        reveal_strlit("8");
        reveal_strlit("9");
    }
    if d == 0 {
        s.append("0");
    } else if d == 1 {
        s.append("1");
    } else if d == 2 {
        s.append("2");
    } else if d == 3 {
        s.append("3");
    } else if d == 4 {
        s.append("4");
    } else if d == 5 {
        s.append("5");
    } else if d == 6 {
        s.append("6");
    } else if d == 7 {
        s.append("7");
    } else if d == 8 {
        s.append("8");
    } else {
        s.append("9");
    }
    proof {
        assert(s@ =~= old(s)@ + seq![digit_char(d as nat)]);
    }
}

/// Appends the decimal form of `n` to `s`.
fn push_u64(s: &mut String, n: u64)
    ensures
        final(s)@ == old(s)@ + dec_chars(n as nat),
    decreases n,
{
    if n < 10 {
        push_digit(s, n);
    } else {
        push_u64(s, n / 10);
        push_digit(s, n % 10);
        proof {
            assert(old(s)@ + dec_chars((n / 10) as nat) + seq![digit_char((n % 10) as nat)]
                =~= old(s)@ + dec_chars(n as nat));
        }
    }
}

/// The decimal form of `n`.
pub fn u64_string(n: u64) -> (r: String)
    ensures
        r@ == dec_chars(n as nat),
{
    let mut s = String::new();
    push_u64(&mut s, n);
    proof {
        assert(Seq::<char>::empty() + dec_chars(n as nat) =~= dec_chars(n as nat));
    }
    s
}

/// Appends the decimal form of `n`, sign included, to `s`.
pub fn push_i32(s: &mut String, n: i32)
    ensures
        final(s)@ == old(s)@ + i32_chars(n),
{
    if n < 0 {
        proof {
            reveal_strlit("-");
        }
        s.append("-");
        let magnitude: u64 = (-(n as i64)) as u64;
        push_u64(s, magnitude);
        proof {
            assert(old(s)@ + "-"@ + dec_chars(magnitude as nat) =~= old(s)@ + i32_chars(n));
        }
    } else {
        push_u64(s, n as u64);
    }
}

/// The decimal form of `n`, sign included.
pub fn i32_string(n: i32) -> (r: String)
    ensures
        r@ == i32_chars(n),
{
    let mut s = String::new();
    push_i32(&mut s, n);
    proof {
        assert(Seq::<char>::empty() + i32_chars(n) =~= i32_chars(n));
    }
    s
}

/// The textual form of a coordinate pair.
pub open spec fn pos_chars(x: i32, y: i32) -> Seq<char> {
    seq!['('] + i32_chars(x) + seq![','] + i32_chars(y) + seq![')']
}

/// Formats a coordinate pair as `(x,y)`.
pub fn pos_string(x: i32, y: i32) -> (r: String)
    ensures
        r@ == pos_chars(x, y),
{
    proof {
        reveal_strlit("(");
        reveal_strlit(",");
        reveal_strlit(")");
    }
    let mut s = String::from_str("(");
    push_i32(&mut s, x);
    s.append(",");
    push_i32(&mut s, y);
    s.append(")");
    proof {
        assert(s@ =~= pos_chars(x, y));
    }
    s
}

/// The textual form of a boolean.
pub open spec fn bool_chars(b: bool) -> Seq<char> {
    if b {
        "true"@
    } else {
        "false"@
    }
}

/// Formats a boolean as `true` or `false`.
pub fn bool_string(b: bool) -> (r: String)
    ensures
        r@ == bool_chars(b),
{
    if b {
        String::from_str("true")
    } else {
        String::from_str("false")
    }
}

} // verus!
