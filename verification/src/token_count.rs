//! Token counts as the usage popover prints them: below 1000 the plain count,
//! from 1000 on a one-decimal `k` abbreviation (`9600` is `9.6k`).
//!
//! The abbreviation is the value of `tokens as f64 / 1000.0` printed with one
//! decimal. The computation here is done on integers and reproduces binary64
//! exactly: the conversion of the count to `f64` and the division each round to
//! the nearest value with a 53-bit significand (ties to even), and the printed
//! tenths are the exact value of that quotient rounded to one decimal (ties to
//! even).

use vstd::prelude::*;
use vstd::arithmetic::power2::*;
use vstd::arithmetic::div_mod::*;
use crate::text::{decimal, digit_char, push_char, push_decimal, push_str};

verus! {

/// `a / b` rounded to the nearest integer, ties to the even integer.
pub open spec fn round_half_even(a: nat, b: nat) -> nat
    recommends
        b > 0,
{
    let f = a / b;
    let r = a % b;
    if 2 * r > b || (2 * r == b && f % 2 == 1) {
        f + 1
    } else {
        f
    }
}

/// `floor(log2(y))` for `y >= 1` (and 0 for `y == 0`).
pub open spec fn log2_floor(y: nat) -> nat
    decreases y,
{
    if y < 2 {
        0
    } else {
        1 + log2_floor(y / 2)
    }
}

/// The value of `n as f64`: `n` rounded to 53 significant bits, ties to even.
pub open spec fn nat_as_binary64(n: nat) -> nat {
    let e = log2_floor(n);
    if e <= 52 {
        n
    } else {
        let k = (e - 52) as nat;
        round_half_even(n, pow2(k)) * pow2(k)
    }
}

/// The binary64 quotient of `x / d` (for `x / d >= 1`) is
/// `binary64_quotient_num(x, d) / binary64_quotient_den(x, d)`: the exact quotient
/// rounded to 53 significant bits, ties to even.
pub open spec fn binary64_quotient_num(x: nat, d: nat) -> nat {
    let e = log2_floor(x / d);
    if e <= 52 {
        round_half_even(x * pow2((52 - e) as nat), d)
    } else {
        let k = (e - 52) as nat;
        round_half_even(x, d * pow2(k)) * pow2(k)
    }
}

/// See [`binary64_quotient_num`].
pub open spec fn binary64_quotient_den(x: nat, d: nat) -> nat {
    let e = log2_floor(x / d);
    if e <= 52 {
        pow2((52 - e) as nat)
    } else {
        1
    }
}

/// Ten times `tokens as f64 / 1000.0`, rounded to an integer the way one-decimal
/// formatting rounds (ties to even): the digits printed for the abbreviation.
pub open spec fn thousands_in_tenths(tokens: nat) -> nat {
    let x = nat_as_binary64(tokens);
    round_half_even(10 * binary64_quotient_num(x, 1000), binary64_quotient_den(x, 1000))
}

/// The text the popover shows for a raw token count.
pub open spec fn token_count_text(tokens: nat) -> Seq<char> {
    if tokens >= 1000 {
        let t = thousands_in_tenths(tokens);
        decimal(t / 10) + seq!['.', digit_char(t % 10), 'k']
    } else {
        decimal(tokens)
    }
}

proof fn lemma_log2_floor_bounds(y: nat)
    requires
        y >= 1,
    ensures
        pow2(log2_floor(y)) <= y < pow2(log2_floor(y) + 1),
    decreases y,
{
    reveal(vstd::arithmetic::power::pow);
    if y < 2 {
        lemma2_to64();
    } else {
        lemma_log2_floor_bounds(y / 2);
        let e = log2_floor(y / 2);
        lemma_pow2_unfold(e + 1);
        lemma_pow2_unfold(e + 2);
    }
}

fn round_half_even_exec(a: u128, b: u128) -> (r: u128)
    requires
        0 < b < 0x4000_0000_0000_0000_0000_0000_0000_0000,
    ensures
        r == round_half_even(a as nat, b as nat),
        r <= a / b + 1,
{
    let f = a / b;
    let rem = a % b;
    if 2 * rem > b || (2 * rem == b && f % 2 == 1) {
        assert(f + 1 <= u128::MAX) by {
            assert(b >= 2);
            lemma_div_is_ordered_by_denominator(a as int, 2, b as int);
        }
        f + 1
    } else {
        f
    }
}

fn log2_floor_exec(y: u128) -> (e: u32)
    ensures
        e == log2_floor(y as nat),
        e < 128,
{
    let mut v = y;
    let mut c: u32 = 0;
    proof {
        lemma2_to64();
    }
    while v >= 2
        invariant
            c + log2_floor(v as nat) == log2_floor(y as nat),
            v >= 1 ==> pow2(c as nat) * v <= y,
            v == 0 ==> y == 0 && c == 0,
            c < 128,
        decreases v,
    {
        proof {
            lemma_pow2_unfold((c + 1) as nat);
            lemma_pow2_pos((c + 1) as nat);
            lemma_fundamental_div_mod(v as int, 2);
            assert(pow2((c + 1) as nat) * (v / 2) == pow2(c as nat) * (2 * (v / 2))) by (nonlinear_arith)
                requires pow2((c + 1) as nat) == 2 * pow2(c as nat);
            assert(pow2(c as nat) * (2 * (v / 2)) <= pow2(c as nat) * v) by (nonlinear_arith)
                requires 2 * (v / 2) <= v;
            assert(pow2((c + 1) as nat) * (v / 2) <= y);
            assert((v / 2) >= 1);
            assert(pow2((c + 1) as nat) <= y) by (nonlinear_arith)
                requires pow2((c + 1) as nat) * (v / 2) <= y, (v / 2) >= 1, pow2((c + 1) as nat) > 0;
            if c + 1 >= 128 {
                lemma_pow2_strictly_increases(127, (c + 1) as nat);
                lemma_pow2_adds(64, 63);
                lemma2_to64();
                lemma2_to64_rest();
                assert(pow2(127) == 0x8000_0000_0000_0000 * 0x1_0000_0000_0000_0000);
                assert(false);
            }
        }
        v = v / 2;
        c = c + 1;
    }
    c
}

fn pow2_exec(k: u32) -> (p: u128)
    requires
        k <= 64,
    ensures
        p == pow2(k as nat),
        p <= 0x1_0000_0000_0000_0000,
{
    proof {
        lemma2_to64();
    }
    let mut p: u128 = 1;
    let mut i: u32 = 0;
    while i < k
        invariant
            i <= k <= 64,
            p == pow2(i as nat),
            pow2(64) == 0x1_0000_0000_0000_0000,
        decreases k - i,
    {
        proof {
            lemma_pow2_unfold((i + 1) as nat);
            if i + 1 < 64 {
                lemma_pow2_strictly_increases((i + 1) as nat, 64);
            }
        }
        p = p * 2;
        i = i + 1;
    }
    if k < 64 {
        proof { lemma_pow2_strictly_increases(k as nat, 64); }
    }
    p
}

/// `n as f64` for a token count, as an integer (see [`nat_as_binary64`]).
fn u64_as_binary64(n: u64) -> (x: u128)
    ensures
        x == nat_as_binary64(n as nat),
        x <= n + 0x1_0000_0000_0000,
{
    let e = log2_floor_exec(n as u128);
    if e <= 52 {
        n as u128
    } else {
        proof {
            lemma2_to64();
            lemma_log2_floor_bounds(n as nat);
            if e >= 64 {
                if e > 64 {
                    lemma_pow2_strictly_increases(64, e as nat);
                }
                assert(false);
            }
        }
        let k = e - 52;
        let p = pow2_exec(k);
        proof {
            lemma2_to64();
            if k < 12 { lemma_pow2_strictly_increases(k as nat, 12); }
        }
        let m = round_half_even_exec(n as u128, p);
        proof {
            lemma_fundamental_div_mod(n as int, p as int);
            assert((m as int) * (p as int) <= (n as int) / (p as int) * (p as int) + p) by (nonlinear_arith)
                requires m <= (n as int) / (p as int) + 1, p > 0;
        }
        m * p
    }
}

/// Ten times the binary64 value of `x / 1000`, rounded half to even.
fn binary64_thousands_tenths(x: u128) -> (t: u128)
    requires
        x <= 0x1_0000_0000_0000_0000 + 0x1_0000_0000_0000,
    ensures
        t == round_half_even(10 * binary64_quotient_num(x as nat, 1000), binary64_quotient_den(x as nat, 1000)),
{
    let y = x / 1000;
    let e = log2_floor_exec(y);
    proof {
        lemma2_to64();
        lemma2_to64_rest();
    }
    if e <= 52 {
        let s = 52 - e;
        let p = pow2_exec(s);
        proof {
            if y >= 1 {
                lemma_log2_floor_bounds(y as nat);
                lemma_pow2_adds((e + 1) as nat, s as nat);
            } else {
                lemma_pow2_adds(1, s as nat);
                assert(e == 0);
            }
            lemma_fundamental_div_mod(x as int, 1000);
            assert(pow2(53) == 0x20_0000_0000_0000);
            // x < 1000 * 2^(e+1) and p == 2^(52 - e)
            assert(x < 1000 * pow2((e + 1) as nat));
            assert((x as int) * (p as int) < 1000 * pow2((e + 1) as nat) * pow2(s as nat)) by (nonlinear_arith)
                requires x < 1000 * pow2((e + 1) as nat), p == pow2(s as nat), p > 0;
            assert((e + 1) + s == 53);
            assert(1000 * pow2((e + 1) as nat) * pow2(s as nat) == 1000 * pow2(53)) by (nonlinear_arith)
                requires pow2(53) == pow2((e + 1) as nat) * pow2(s as nat);
        }
        let a = x * p;
        let qn = round_half_even_exec(a, 1000);
        assert(qn <= a + 1) by {
            lemma_div_is_ordered_by_denominator(a as int, 1, 1000);
        }
        proof { lemma_pow2_strictly_increases(s as nat, 64); }
        round_half_even_exec(10 * qn, p)
    } else {
        proof {
            lemma_log2_floor_bounds(y as nat);
            if e > 54 {
                lemma_pow2_strictly_increases(55, e as nat);
                lemma_pow2_adds(54, 1);
                lemma_pow2_unfold(54);
                lemma_pow2_unfold(53);
                assert(pow2(53) == 0x20_0000_0000_0000);
                assert(false);
            }
        }
        let k = e - 52;
        let p = pow2_exec(k);
        proof {
            lemma_pow2_unfold(1);
            lemma_pow2_unfold(2);
            lemma_pow2_unfold(1);
        }
        assert(p <= 4);
        let m = round_half_even_exec(x, 1000 * p);
        assert(m <= x + 1) by {
            lemma_div_is_ordered_by_denominator(x as int, 1, 1000 * p as int);
        }
        assert(m * p <= (x + 1) * 4) by (nonlinear_arith)
            requires m <= x + 1, p <= 4;
        let qn = m * p;
        round_half_even_exec(10 * qn, 1)
    }
}

/// Formats a raw token count: the plain count below 1000, otherwise the
/// thousands with one decimal and a `k` suffix (`9600` gives `"9.6k"`,
/// `1000` gives `"1.0k"`), rounding exactly as `{:.1}` formatting of
/// `tokens as f64 / 1000.0` does.
pub fn format_token_count(tokens: u64) -> (s: String)
    ensures
        s@ == token_count_text(tokens as nat),
{
    let mut s = String::new();
    if tokens >= 1000 {
        let x = u64_as_binary64(tokens);
        let t = binary64_thousands_tenths(x);
        push_decimal(&mut s, t / 10);
        let d = t % 10;
        let mut tail = String::new();
        push_decimal(&mut tail, d);
        assert(decimal(d as nat) == seq![digit_char(d as nat)]);
        push_char(&mut s, '.');
        push_str(&mut s, tail.as_str());
        push_char(&mut s, 'k');
        assert(s@ =~= token_count_text(tokens as nat));
    } else {
        push_decimal(&mut s, tokens as u128);
        assert(s@ =~= token_count_text(tokens as nat));
    }
    s
}

} // verus!
