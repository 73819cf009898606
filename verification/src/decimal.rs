//! Decimal rendering of integers, used by the emitters to print range bounds
//! and to synthesize numbered loop-variable names.

use vstd::prelude::*;

verus! {

/// The character for one decimal digit value.
pub open spec fn digit_char(d: int) -> char {
    if d == 0 {
        '0'
    } else if d == 1 {
        '1'
    } else if d == 2 {
        '2'
    } else if d == 3 {
        '3'
    } else if d == 4 {
        '4'
    } else if d == 5 {
        '5'
    } else if d == 6 {
        '6'
    } else if d == 7 {
        '7'
    } else if d == 8 {
        '8'
    } else {
        '9'
    }
}

/// The decimal spelling of a non-negative integer, most significant digit first.
pub open spec fn dec_nat(n: nat) -> Seq<char>
    decreases n,
{
    if n < 10 {
        seq![digit_char(n as int)]
    } else {
        dec_nat(n / 10) + seq![digit_char((n % 10) as int)]
    }
}

/// The decimal spelling of an integer, with a leading minus sign when negative.
pub open spec fn dec_int(n: int) -> Seq<char> {
    if n >= 0 {
        dec_nat(n as nat)
    } else {
        seq!['-'] + dec_nat((-n) as nat)
    }
}

/// One decimal digit as a string slice.
fn digit_str(d: u64) -> (r: &'static str)
    requires
        d < 10,
    ensures
        r@ == seq![digit_char(d as int)],
{
    proof {
        reveal_strlit("0");
        reveal_strlit("1");
        reveal_strlit("2");
        reveal_strlit("3");
        reveal_strlit("4");
        reveal_strlit("5");
        reveal_strlit("6");
        reveal_strlit("7");
        reveal_strlit("8");
        reveal_strlit("9");
    }
    let r = if d == 0 {
        "0"
    } else if d == 1 {
        "1"
    } else if d == 2 {
        "2"
    } else if d == 3 {
        "3"
    } else if d == 4 {
        "4"
    } else if d == 5 {
        "5"
    } else if d == 6 {
        "6"
    } else if d == 7 {
        "7"
    } else if d == 8 {
        "8"
    } else {
        "9"
    };
    proof {
        assert(r@ =~= seq![digit_char(d as int)]);
    }
    r
}

/// Render a non-negative integer in decimal.
pub fn dec_u64(n: u64) -> (r: String)
    ensures
        r@ == dec_nat(n as nat),
    decreases n,
{
    if n < 10 {
        String::from_str(digit_str(n))
    } else {
        let mut s = dec_u64(n / 10);
        s.append(digit_str(n % 10));
        s
    }
}

/// Render an integer in decimal, with a minus sign when negative.
pub fn dec_i64(n: i64) -> (r: String)
    ensures
        r@ == dec_int(n as int),
{
    if n >= 0 {
        dec_u64(n as u64)
    } else {
        let m: u64 = ((-(n + 1)) as u64) + 1;
        assert(m as nat == (-(n as int)) as nat);
        let mut s = String::from_str("-");
        let tail = dec_u64(m);
        s.append(tail.as_str());
        proof {
            reveal_strlit("-");
            assert("-"@ =~= seq!['-']);
        }
        proof {
            assert(s@ =~= dec_int(n as int));
        }
        s
    }
}

} // verus!
