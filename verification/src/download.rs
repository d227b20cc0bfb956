//! How the downloader shows sizes: a byte count in binary units, exactly
//! as the `f64` arithmetic it mirrors prints it.

use vstd::prelude::*;
use crate::text::{digit_char, push_char, push_decimal, spec_decimal};

verus! {

/// Two to the power `k`.
pub open spec fn p2(k: nat) -> nat
    decreases k,
{
    if k == 0 { 1 } else { 2 * p2((k - 1) as nat) }
}

/// How many low bits of `n` fall outside the 53 significant bits of an `f64`.
pub open spec fn excess(n: nat) -> nat
    decreases n,
{
    if n < 9007199254740992 { 0 } else { 1 + excess(n / 2) }
}

/// `n / d` rounded to the nearest integer, ties to even.
pub open spec fn div_round_even(n: nat, d: nat) -> nat {
    let q = n / d;
    let r = n % d;
    if 2 * r > d || (2 * r == d && q % 2 == 1) { q + 1 } else { q }
}

/// The value `n as f64` takes: `n` rounded to 53 significant bits, ties to even.
pub open spec fn f64_value(n: nat) -> nat {
    div_round_even(n, p2(excess(n))) * p2(excess(n))
}

/// How many times a size is divided by 1024 before it is shown (at most 4).
pub open spec fn size_unit(f: nat) -> nat {
    if f >= 1099511627776 { 4 } else if f >= 1073741824 { 3 } else if f >= 1048576 { 2 } else if f >= 1024 { 1 } else { 0 }
}

/// 1024 to the power of a unit index.
pub open spec fn unit_divisor(u: nat) -> nat {
    if u == 4 { 1099511627776 } else if u == 3 { 1073741824 } else if u == 2 { 1048576 } else if u == 1 { 1024 } else { 1 }
}

/// The name of a unit index.
pub open spec fn unit_name(u: nat) -> Seq<char> {
    if u == 4 { "TiB"@ } else if u == 3 { "GiB"@ } else if u == 2 { "MiB"@ } else if u == 1 { "KiB"@ } else { "B"@ }
}

/// A byte count in binary units with one decimal, e.g. `5.5 GiB`: the size
/// as an `f64`, divided by 1024 while at least 1024 (up to TiB), printed
/// rounded to tenths with ties to even.
pub open spec fn spec_human_size(bytes: nat) -> Seq<char> {
    let f = f64_value(bytes);
    let u = size_unit(f);
    let tenths = div_round_even(f * 10, unit_divisor(u));
    spec_decimal(tenths / 10) + "."@ + seq![digit_char(tenths % 10)] + " "@ + unit_name(u)
}

fn round_even(n: u128, d: u128) -> (r: u128)
    requires
        d > 0,
        n / d < u128::MAX,
    ensures
        r == div_round_even(n as nat, d as nat),
{
    let q = n / d;
    let r = n % d;
    if r > d - r || (r == d - r && q % 2 == 1) { q + 1 } else { q }
}

/// The value `bytes as f64` holds, as an exact integer.
fn as_f64_value(bytes: u64) -> (r: u128)
    ensures
        r == f64_value(bytes as nat),
        r <= 18446744073709555712,
{
    let n = bytes as u128;
    let mut m: u128 = n;
    let mut p: u128 = 1;
    let ghost mut e: nat = 0;
    while m >= 9007199254740992
        invariant
            n == bytes as u128,
            p == p2(e),
            p > 0,
            m == n / p,
            excess(n as nat) == e + excess(m as nat),
            p == 1 || p * 4503599627370496 <= n,
            n < 18446744073709551616,
        decreases m,
    {
        proof {
            let ni = n as int;
            let pi = p as int;
            let mi = m as int;
            vstd::arithmetic::div_mod::lemma_div_denominator(ni, pi, 2);
            vstd::arithmetic::div_mod::lemma_fundamental_div_mod(ni, pi);
            vstd::arithmetic::div_mod::lemma_mod_pos_bound(ni, pi);
            assert(pi * 9007199254740992 <= ni) by (nonlinear_arith)
                requires
                    mi >= 9007199254740992,
                    pi > 0,
                    ni == pi * mi + ni % pi,
                    ni % pi >= 0;
        }
        m = m / 2;
        p = p * 2;
        proof {
            e = e + 1;
        }
    }
    proof {
        assert(excess(m as nat) == 0);
    }
    let q = round_even(n, p);
    proof {
        let ni = n as int;
        let pi = p as int;
        let qi = q as int;
        vstd::arithmetic::div_mod::lemma_fundamental_div_mod(ni, pi);
        vstd::arithmetic::div_mod::lemma_mod_pos_bound(ni, pi);
        assert(pi < 4096);
        assert(qi <= ni / pi + 1);
        assert(qi * pi <= ni + pi) by (nonlinear_arith)
            requires
                qi <= ni / pi + 1,
                pi > 0,
                ni == pi * (ni / pi) + ni % pi,
                ni % pi >= 0;
    }
    q * p
}

/// A human-readable size: `0.0 B`, `1.0 KiB`, `5.5 GiB`.
pub fn human_size(bytes: u64) -> (r: String)
    ensures
        r@ == spec_human_size(bytes as nat),
{
    let f = as_f64_value(bytes);
    let (u, div, name): (u64, u128, &str) = if f >= 1099511627776 {
        (4, 1099511627776, "TiB")
    } else if f >= 1073741824 {
        (3, 1073741824, "GiB")
    } else if f >= 1048576 {
        (2, 1048576, "MiB")
    } else if f >= 1024 {
        (1, 1024, "KiB")
    } else {
        (0, 1, "B")
    };
    let tenths = round_even(f * 10, div);
    let mut r = String::new();
    push_decimal(&mut r, tenths / 10);
    r.append(".");
    let d = tenths % 10;
    let c: char = if d == 0 { '0' } else if d == 1 { '1' } else if d == 2 { '2' } else if d == 3 { '3' }
        else if d == 4 { '4' } else if d == 5 { '5' } else if d == 6 { '6' } else if d == 7 { '7' }
        else if d == 8 { '8' } else { '9' };
    push_char(&mut r, c);
    r.append(" ");
    r.append(name);
    proof {
        reveal_strlit(".");
        reveal_strlit(" ");
        assert(r@ =~= spec_human_size(bytes as nat));
    }
    r
}

} // verus!
