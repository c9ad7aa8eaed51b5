//! Decimal rendering of integers: a specification of the digit string of a
//! number and executable renderers proved against it.

use vstd::prelude::*;

verus! {

/// The character for a single decimal digit.
pub open spec fn digit_char_spec(d: nat) -> char
    recommends
        d < 10,
{
    if d == 0 {
        '0'
    } else if d == 1 {
        '1'
    } else if d == 2 {
        '2'
    } else if d == 3 {
        '3'
    } else if d == 4 {
        '4'
    } else if d == 5 {
        '5'
    } else if d == 6 {
        '6'
    } else if d == 7 {
        '7'
    } else if d == 8 {
        '8'
    } else {
        '9'
    }
}

/// The decimal digits of `n`, most significant first, with no leading zeros
/// (a single `'0'` for zero).
pub open spec fn dec_nat(n: nat) -> Seq<char>
    decreases n,
{
    if n < 10 {
        seq![digit_char_spec(n)]
    } else {
        dec_nat(n / 10) + seq![digit_char_spec(n % 10)]
    }
}

/// The decimal rendering of a signed number: a minus sign before the digits
/// of the magnitude when the number is negative.
pub open spec fn dec_int(n: int) -> Seq<char> {
    if n < 0 {
        seq!['-'] + dec_nat((-n) as nat)
    } else {
        dec_nat(n as nat)
    }
}

fn digit_char(d: u32) -> (c: char)
    requires
        d < 10,
    ensures
        c == digit_char_spec(d as nat),
{
    if d == 0 {
        '0'
    } else if d == 1 {
        '1'
    } else if d == 2 {
        '2'
    } else if d == 3 {
        '3'
    } else if d == 4 {
        '4'
    } else if d == 5 {
        '5'
    } else if d == 6 {
        '6'
    } else if d == 7 {
        '7'
    } else if d == 8 {
        '8'
    } else {
        '9'
    }
}

/// Appends the decimal digits of `n` at the end of the buffer.
pub(crate) fn push_dec_u32(s: &mut String, n: u32)
    ensures
        final(s)@ == old(s)@ + dec_nat(n as nat),
    decreases n,
{
    if n < 10 {
        let c = digit_char(n);
        crate::text::push_char(s, c);
        proof {
            assert(s@ =~= old(s)@ + dec_nat(n as nat));
        }
    } else {
        push_dec_u32(s, n / 10);
        let c = digit_char(n % 10);
        crate::text::push_char(s, c);
        proof {
            assert(s@ =~= old(s)@ + dec_nat(n as nat));
        }
    }
}

/// Appends the decimal rendering of the signed number `n` at the end of the
/// buffer.
pub(crate) fn push_dec_i32(s: &mut String, n: i32)
    ensures
        final(s)@ == old(s)@ + dec_int(n as int),
{
    if n < 0 {
        crate::text::push_char(s, '-');
        let m: u32 = (-(n as i64)) as u32;
        push_dec_u32(s, m);
        proof {
            assert(s@ =~= old(s)@ + dec_int(n as int));
        }
    } else {
        push_dec_u32(s, n as u32);
    }
}

/// The decimal rendering of `n` as an owned text value.
pub fn format_i32(n: i32) -> (r: String)
    ensures
        r@ == dec_int(n as int),
{
    let mut s = String::new();
    push_dec_i32(&mut s, n);
    proof {
        assert(s@ =~= dec_int(n as int));
    }
    s
}

} // verus!
