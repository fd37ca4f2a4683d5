//! Decimal rendering of the integers that appear in emitted enum members:
//! sequential IDs (non-negative) and explicit enumeration values (signed).

use vstd::prelude::*;
use crate::translit::push_char;

verus! {

/// The decimal digit character for `d` (meaningful for `0 <= d <= 9`).
pub open spec fn dec_digit(d: int) -> char {
    (('0' as int) + d) as char
}

/// The decimal rendering of a non-negative integer, without a sign and
/// without leading zeros (`0` itself renders as `0`).
pub open spec fn dec_nat(n: nat) -> Seq<char>
    decreases n,
{
    if n < 10 {
        seq![dec_digit(n as int)]
    } else {
        dec_nat(n / 10).push(dec_digit((n % 10) as int))
    }
}

/// The decimal rendering of an integer: a `-` sign before the magnitude for
/// negative values.
pub open spec fn dec_int(v: int) -> Seq<char> {
    if v < 0 {
        seq!['-'] + dec_nat((-v) as nat)
    } else {
        dec_nat(v as nat)
    }
}

fn dec_digit_exec(d: u64) -> (c: char)
    requires
        d <= 9,
    ensures
        c == dec_digit(d as int),
{
    ((48u8 + (d as u8)) as char)
}

/// Renders a `u64` in decimal.
pub fn u64_to_dec(n: u64) -> (r: String)
    ensures
        r@ == dec_nat(n as nat),
{
    let mut digits: Vec<char> = Vec::new();
    let mut m: u64 = n;
    loop
        invariant_except_break
            digits@.len() == 0 ==> m == n,
            digits@.len() > 0 ==> m > 0 && dec_nat(n as nat) == dec_nat(m as nat)
                + digits@.reverse(),
        ensures
            digits@.len() > 0,
            dec_nat(n as nat) == digits@.reverse(),
        decreases m,
    {
        let ghost prev = m;
        let ghost prev_digits = digits@;
        let d = m % 10;
        m = m / 10;
        digits.push(dec_digit_exec(d));
        proof {
            assert(digits@.reverse() =~= seq![dec_digit(d as int)] + prev_digits.reverse());
            if prev_digits.len() == 0 {
                if m == 0 {
                    assert(dec_nat(n as nat) =~= digits@.reverse());
                } else {
                    assert(dec_nat(n as nat) == dec_nat(m as nat).push(dec_digit(d as int)));
                    assert(dec_nat(n as nat) =~= dec_nat(m as nat) + digits@.reverse());
                }
            } else {
                if m == 0 {
                    assert(dec_nat(prev as nat) =~= seq![dec_digit(d as int)]);
                    assert(dec_nat(n as nat) =~= digits@.reverse());
                } else {
                    assert(dec_nat(prev as nat) == dec_nat(m as nat).push(dec_digit(d as int)));
                    assert(dec_nat(prev as nat) =~= dec_nat(m as nat) + seq![dec_digit(d as int)]);
                    assert(dec_nat(n as nat) =~= dec_nat(m as nat) + digits@.reverse());
                }
            }
        }
        if m == 0 {
            break ;
        }
    }
    let mut out = String::new();
    let len = digits.len();
    let mut j: usize = 0;
    while j < len
        invariant
            len == digits@.len(),
            j <= len,
            out@.len() == j,
            forall|t: int| 0 <= t < j ==> out@[t] == digits@[len - 1 - t],
        decreases len - j,
    {
        push_char(&mut out, digits[len - 1 - j]);
        j += 1;
    }
    proof {
        assert(out@ =~= digits@.reverse());
    }
    out
}

/// Renders an `i64` in decimal, with a leading `-` for negative values.
pub fn i64_to_dec(v: i64) -> (r: String)
    ensures
        r@ == dec_int(v as int),
{
    if v >= 0 {
        u64_to_dec(v as u64)
    } else {
        let mag: u64 = (-(v as i128)) as u64;
        assert(mag as int == -(v as int));
        let mut out = String::new();
        out.append("-");
        let digits = u64_to_dec(mag);
        out.append(digits.as_str());
        proof {
            reveal_strlit("-");
            assert("-"@ =~= seq!['-']);
            assert(out@ =~= dec_int(v as int));
        }
        out
    }
}

/// Renders a `usize` in decimal.
pub fn usize_to_dec(n: usize) -> (r: String)
    ensures
        r@ == dec_nat(n as nat),
{
    u64_to_dec(n as u64)
}

} // verus!
