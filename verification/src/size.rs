//! Human-readable sizes: the byte count converted to a double, divided by
//! the largest binary unit it reaches, and shown with two decimals.

use vstd::prelude::*;
use vstd::arithmetic::div_mod::{lemma_fundamental_div_mod, lemma_div_denominator};
use crate::text::{decimal, u64_to_decimal};
use crate::{GB, KB, MB, TB};

verus! {

pub const F64_SIGNIFICAND_LIMIT: u64 = 9007199254740992;

/// `n / d` rounded to the nearest integer, ties to the even one.
pub open spec fn div_round_even(n: nat, d: nat) -> nat {
    let q = n / d;
    let r = n % d;
    if 2 * r > d || (2 * r == d && q % 2 == 1) { q + 1 } else { q }
}

/// The spacing of doubles around `b`: 1 below 2^53, doubling with each
/// binary order of magnitude above.
pub open spec fn f64_unit(b: nat) -> nat
    decreases b,
{
    if b < F64_SIGNIFICAND_LIMIT { 1 } else { 2 * f64_unit(b / 2) }
}

/// The double nearest to `b` (ties to an even significand), as an integer.
pub open spec fn f64_value(b: nat) -> nat {
    div_round_even(b, f64_unit(b)) * f64_unit(b)
}

/// `n` hundredths with two decimals.
pub open spec fn hundredths(n: nat) -> Seq<char> {
    let frac = n % 100;
    decimal(n / 100) + "."@ + (if frac < 10 { "0"@ + decimal(frac) } else { decimal(frac) })
}

/// The text of a size: bytes below 1 KiB as a whole number, otherwise the
/// value of the double in the largest unit reached, to two decimals.
pub open spec fn size_text(bytes: u64) -> Seq<char> {
    let x = f64_value(bytes as nat);
    if bytes >= TB {
        hundredths(div_round_even(x * 100, TB as nat)) + " TB"@
    } else if bytes >= GB {
        hundredths(div_round_even(x * 100, GB as nat)) + " GB"@
    } else if bytes >= MB {
        hundredths(div_round_even(x * 100, MB as nat)) + " MB"@
    } else if bytes >= KB {
        hundredths(div_round_even(x * 100, KB as nat)) + " KB"@
    } else {
        decimal(bytes as nat) + " B"@
    }
}

fn div_round_even_u128(n: u128, d: u128) -> (r: u128)
    requires
        d > 0,
        n < u128::MAX,
    ensures
        r == div_round_even(n as nat, d as nat),
{
    let q = n / d;
    let rem = n % d;
    proof {
        lemma_fundamental_div_mod(n as int, d as int);
        assert(q <= n) by (nonlinear_arith)
            requires
                n == d * q + rem,
                d >= 1,
                rem >= 0,
                q >= 0,
        ;
    }
    if rem > d - rem || (rem == d - rem && q % 2 == 1) {
        q + 1
    } else {
        q
    }
}

/// The double nearest to `b`, as an integer.
fn f64_value_of(b: u64) -> (x: u128)
    ensures
        x == f64_value(b as nat),
        x <= 0x1_0000_0000_0000_1000,
{
    let mut c: u64 = b;
    let mut p: u64 = 1;
    while c >= F64_SIGNIFICAND_LIMIT
        invariant
            p >= 1,
            p <= 4096,
            c == b / p,
            f64_unit(b as nat) == p * f64_unit(c as nat),
        decreases c,
    {
        proof {
            lemma_div_denominator(b as int, p as int, 2);
            assert(f64_unit(c as nat) == 2 * f64_unit((c / 2) as nat));
            assert(p * (2 * f64_unit((c / 2) as nat)) == (p * 2) * f64_unit((c / 2) as nat)) by (nonlinear_arith);
            lemma_fundamental_div_mod(b as int, p as int);
            assert(p <= 2047) by (nonlinear_arith)
                requires
                    b == p * c + b % p,
                    b % p >= 0,
                    c >= F64_SIGNIFICAND_LIMIT,
                    b <= u64::MAX,
                    p >= 1,
            ;
        }
        c = c / 2;
        p = p * 2;
    }
    assert(f64_unit(c as nat) == 1);
    assert(f64_unit(b as nat) == p) by (nonlinear_arith)
        requires
            f64_unit(b as nat) == p * f64_unit(c as nat),
            f64_unit(c as nat) == 1,
    ;
    let rounded = div_round_even_u128(b as u128, p as u128);
    proof {
        lemma_fundamental_div_mod(b as int, p as int);
        assert(rounded <= c + 1);
        assert(rounded * p <= 0x1_0000_0000_0000_1000) by (nonlinear_arith)
            requires
                rounded <= c + 1,
                b == p * c + b % p,
                b % p >= 0,
                p <= 4096,
                b <= u64::MAX,
        ;
    }
    rounded * (p as u128)
}

fn push_hundredths(s: &mut String, n: u128)
    requires
        n / 100 <= u64::MAX,
    ensures
        final(s)@ == old(s)@ + hundredths(n as nat),
{
    let whole = u64_to_decimal((n / 100) as u64);
    s.append(whole.as_str());
    s.append(".");
    let frac = (n % 100) as u64;
    if frac < 10 {
        s.append("0");
    }
    let f = u64_to_decimal(frac);
    s.append(f.as_str());
    proof {
        if frac >= 10 {
            assert(old(s)@ + decimal((n / 100) as nat) + "."@ + decimal(frac as nat) =~= old(s)@ + hundredths(n as nat));
        } else {
            assert(old(s)@ + decimal((n / 100) as nat) + "."@ + "0"@ + decimal(frac as nat) =~= old(s)@ + hundredths(n as nat));
        }
    }
}

/// Renders a byte count the way people read it, e.g. `1.50 KB` or `512 B`.
pub fn format_size(bytes: u64) -> (s: String)
    ensures
        s@ == size_text(bytes),
{
    if bytes < KB {
        let mut s = u64_to_decimal(bytes);
        s.append(" B");
        return s;
    }
    let x = f64_value_of(bytes);
    let (unit, suffix): (u64, &str) = if bytes >= TB {
        (TB, " TB")
    } else if bytes >= GB {
        (GB, " GB")
    } else if bytes >= MB {
        (MB, " MB")
    } else {
        (KB, " KB")
    };
    let n = div_round_even_u128(x * 100, unit as u128);
    proof {
        assert(n / 100 <= u64::MAX) by (nonlinear_arith)
            requires
                n == div_round_even((x * 100) as nat, unit as nat),
                x <= 0x1_0000_0000_0000_1000,
                unit >= 1024,
        {
            lemma_fundamental_div_mod((x * 100) as int, unit as int);
        }
    }
    let mut s = String::new();
    push_hundredths(&mut s, n);
    s.append(suffix);
    s
}

} // verus!
