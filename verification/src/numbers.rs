//! Number formatting: decimal digits, the binary64 rounding that the
//! token counter and the context gauge go through, and `format_tokens`.
//!
//! Token counts are shown in thousands or millions with one decimal, as
//! the binary64 quotient of the count rendered to one decimal place
//! would show them. Everything here is done in exact integer
//! arithmetic: a quotient `num / den` rounded to binary64 is
//! `mantissa / 2^scale`, with a 53-bit mantissa.

use vstd::prelude::*;
use vstd::arithmetic::power2::{pow2, lemma_pow2_adds, lemma_pow2_strictly_increases, lemma_pow2_pos, lemma2_to64, lemma2_to64_rest};
use vstd::arithmetic::div_mod::{lemma_div_multiples_vanish, lemma_mod_multiples_basic};
use crate::text::push_char;

verus! {

/// The character of decimal digit `d`.
pub open spec fn digit_char(d: nat) -> char {
    (d + 48) as char
}

/// The decimal representation of `n`, without leading zeros.
pub open spec fn decimal(n: nat) -> Seq<char>
    decreases n,
{
    if n < 10 {
        seq![digit_char(n)]
    } else {
        decimal(n / 10).push(digit_char(n % 10))
    }
}

/// `a / b` rounded to the nearest integer, ties to the even one.
pub open spec fn round_half_even(a: nat, b: nat) -> nat
    recommends
        b > 0,
{
    let q = a / b;
    let r = a % b;
    if 2 * r > b {
        q + 1
    } else if 2 * r < b {
        q
    } else if q % 2 == 0 {
        q
    } else {
        q + 1
    }
}

/// `num * 2^s / den` lies in `[2^52, 2^53)`: scaled by `2^s`, the
/// quotient has the 53 significant bits of a binary64 mantissa.
pub open spec fn normalized(num: nat, den: nat, s: nat) -> bool {
    pow2(52) * den <= num * pow2(s) && num * pow2(s) < pow2(53) * den
}

/// The scale of the binary64 nearest to `num / den` (for `num, den > 0`).
pub open spec fn scale_of(num: nat, den: nat) -> nat {
    choose|s: nat| normalized(num, den, s)
}

/// The mantissa of the binary64 nearest to `num / den`: that binary64 is
/// `mantissa_of(num, den) / 2^scale_of(num, den)`.
pub open spec fn mantissa_of(num: nat, den: nat) -> nat {
    round_half_even(num * pow2(scale_of(num, den)), den)
}

/// The binary64 nearest to `num / den`, rendered to one decimal place,
/// counted in tenths.
pub open spec fn tenths_of(num: nat, den: nat) -> nat {
    round_half_even(10 * mantissa_of(num, den), pow2(scale_of(num, den)))
}

/// `t` tenths written with one decimal: `12.3` for 123.
pub open spec fn one_decimal(t: nat) -> Seq<char> {
    decimal(t / 10).push('.').push(digit_char(t % 10))
}

/// How a token count is shown: the count itself below a thousand, else
/// thousands with one decimal and `k`, from a million on millions with
/// one decimal and `m`.
pub open spec fn format_tokens_spec(n: nat) -> Seq<char> {
    if n < 1000 {
        decimal(n)
    } else if n < 1_000_000 {
        one_decimal(tenths_of(n, 1000)).push('k')
    } else {
        one_decimal(tenths_of(n, 1_000_000)).push('m')
    }
}

/// The context gauge: `size / window * 100` computed in binary64 (the
/// quotient rounded, then the product rounded to 53 significant bits)
/// and truncated to an integer as `as u32` does, saturating; 0 for an
/// empty window.
pub open spec fn context_percent_spec(size: nat, window: nat) -> nat {
    if window == 0 || size == 0 {
        0
    } else {
        let m = mantissa_of(size, window);
        let s = scale_of(size, window);
        let p = 100 * m;
        let t: nat = if p >= pow2(59) { 7 } else { 6 };
        let v = round_half_even(p, pow2(t)) / pow2((s - t) as nat);
        if v > u32::MAX { u32::MAX as nat } else { v }
    }
}

/// Appends the decimal digits of `n` to `s`.
pub fn push_decimal(s: &mut String, n: u128)
    ensures
        final(s)@ == old(s)@ + decimal(n as nat),
    decreases n,
{
    if n >= 10 {
        push_decimal(s, n / 10);
    }
    let d: u8 = (n % 10) as u8;
    push_char(s, (d + 48) as char);
    proof {
        if n >= 10 {
            assert(decimal(n as nat) == decimal((n / 10) as nat).push(digit_char((n % 10) as nat)));
        }
    }
    assert(s@ =~= old(s)@ + decimal(n as nat));
}


/// `round_half_even` on machine integers.
fn round_half_even_u128(a: u128, b: u128) -> (r: u128)
    requires
        0 < b,
        a < 0x1000000000000000000000000000000,
    ensures
        r == round_half_even(a as nat, b as nat),
{
    let q = a / b;
    let r = a % b;
    assert(q <= a) by (nonlinear_arith)
        requires
            q == a / b,
            b > 0,
    ;
    if r > b - r {
        q + 1
    } else if r < b - r {
        q
    } else if q % 2 == 0 {
        q
    } else {
        q + 1
    }
}

/// At most one scale normalizes a quotient.
proof fn lemma_scale_unique(num: nat, den: nat, s1: nat, s2: nat)
    requires
        normalized(num, den, s1),
        normalized(num, den, s2),
    ensures
        s1 == s2,
{
    if s1 != s2 {
        let lo = if s1 < s2 { s1 } else { s2 };
        let hi = if s1 < s2 { s2 } else { s1 };
        lemma_pow2_adds(lo + 1, (hi - lo - 1) as nat);
        lemma_pow2_pos((hi - lo - 1) as nat);
        lemma_pow2_adds(lo, 1);
        lemma_pow2_adds(52, 1);
        lemma2_to64();
        let a = pow2(lo);
        let k = pow2((hi - lo - 1) as nat);
        assert(pow2(hi) == a * 2 * k);
        assert(num * (a * 2 * k) >= num * a * 2) by (nonlinear_arith)
            requires
                k >= 1,
        ;
        assert(pow2(52) * den * 2 == pow2(53) * den) by (nonlinear_arith)
            requires
                pow2(53) == pow2(52) * 2,
        ;
    }
}

/// The powers of two that the bounds below use.
proof fn lemma_pow2_values()
    ensures
        pow2(0) == 1,
        pow2(1) == 2,
        pow2(20) == 0x100000,
        pow2(52) == 0x10000000000000,
        pow2(53) == 0x20000000000000,
        pow2(58) == 0x400000000000000,
        pow2(59) == 0x800000000000000,
        pow2(60) == 0x1000000000000000,
        pow2(84) == 0x1000000000000000000000,
{
    lemma2_to64();
    lemma2_to64_rest();
    lemma_pow2_adds(64, 20);
}

/// Doubling stays a power of two, and below 2^84 up to it.
proof fn lemma_pow2_double(i: nat)
    requires
        i < 84,
    ensures
        pow2(i + 1) == pow2(i) * 2,
        pow2(i + 1) <= 0x1000000000000000000000,
        pow2(i) > 0,
{
    lemma_pow2_values();
    lemma_pow2_adds(i, 1);
    lemma_pow2_pos(i);
    if i + 1 < 84 {
        lemma_pow2_strictly_increases(i + 1, 84);
    }
}

/// The binary64 nearest to `num / den`, as (mantissa, scale).
fn nearest_binary64(num: u64, den: u64) -> (res: (u128, u32))
    requires
        0 < num < 0x100000000,
        0 < den < 0x100000000,
    ensures
        res.1 as nat == scale_of(num as nat, den as nat),
        res.0 as nat == mantissa_of(num as nat, den as nat),
        20 < res.1 <= 84,
        pow2(52) <= res.0 <= pow2(53),
{
    proof {
        lemma_pow2_values();
    }
    let two52: u128 = 0x10000000000000;
    let bound: u128 = two52 * (den as u128);
    let mut s: u32 = 0;
    let mut p: u128 = 1;
    assert((num as u128) * p < pow2(53) * den) by (nonlinear_arith)
        requires
            p == 1,
            num < 0x100000000,
            pow2(53) == 0x20000000000000,
            den >= 1,
    ;
    while (num as u128) * p < bound
        invariant
            s <= 84,
            p == pow2(s as nat),
            p <= 0x1000000000000000000000,
            two52 == pow2(52),
            bound == pow2(52) * den,
            0 < num < 0x100000000,
            0 < den < 0x100000000,
            (num as u128) * p < pow2(53) * den,
            pow2(52) == 0x10000000000000,
            pow2(53) == 0x20000000000000,
            pow2(84) == 0x1000000000000000000000,
        decreases 84 - s,
    {
        if s >= 84 {
            proof {
                if s > 84 {
                    lemma_pow2_strictly_increases(84, s as nat);
                }
                assert(num * p >= p) by (nonlinear_arith)
                    requires
                        num >= 1,
                        p >= 0,
                ;
                assert(pow2(52) * den < pow2(52) * 0x100000000) by (nonlinear_arith)
                    requires
                        den < 0x100000000,
                        pow2(52) > 0,
                ;
                assert(false);
            }
        }
        proof {
            lemma_pow2_double(s as nat);
            assert(pow2(53) * den == pow2(52) * den * 2) by (nonlinear_arith)
                requires
                    pow2(53) == pow2(52) * 2,
            ;
            assert((num as u128) * (p * 2) == (num as u128) * p * 2) by (nonlinear_arith);
        }
        p = p * 2;
        s = s + 1;
    }
    proof {
        assert(normalized(num as nat, den as nat, s as nat));
        lemma_scale_unique(num as nat, den as nat, s as nat, scale_of(num as nat, den as nat));
        if s <= 20 {
            if s < 20 {
                lemma_pow2_strictly_increases(s as nat, 20);
            }
            assert(num * p < 0x100000000 * 0x100000) by (nonlinear_arith)
                requires
                    num < 0x100000000,
                    p <= 0x100000,
            ;
            assert(pow2(52) * den >= pow2(52)) by (nonlinear_arith)
                requires
                    den >= 1,
            ;
            assert(false);
        }
    }
    let prod: u128 = (num as u128) * p;
    assert(prod < 0x1000000000000000000000000000000) by (nonlinear_arith)
        requires
            prod == num * p,
            num < 0x100000000,
            p <= 0x1000000000000000000000,
    ;
    let m = round_half_even_u128(prod, den as u128);
    proof {
        // 2^52 * den <= prod < 2^53 * den, so the rounded quotient lies in [2^52, 2^53].
        let q = prod / (den as u128);
        assert(q * den <= prod < (q + 1) * den) by (nonlinear_arith)
            requires
                q == prod / (den as u128),
                den > 0,
        ;
        assert(pow2(52) <= q) by (nonlinear_arith)
            requires
                pow2(52) * den <= prod,
                prod < (q + 1) * den,
                den > 0,
        ;
        assert(q < pow2(53)) by (nonlinear_arith)
            requires
                q * den <= prod,
                prod < pow2(53) * den,
                den > 0,
        ;
    }
    (m, s)
}

/// `2^s` as a machine integer.
fn pow2_u128(s: u32) -> (p: u128)
    requires
        s <= 84,
    ensures
        p == pow2(s as nat),
        0 < p <= 0x1000000000000000000000,
{
    proof {
        lemma_pow2_values();
    }
    let mut p: u128 = 1;
    let mut i: u32 = 0;
    while i < s
        invariant
            i <= s <= 84,
            p == pow2(i as nat),
            0 < p <= 0x1000000000000000000000,
        decreases s - i,
    {
        proof {
            lemma_pow2_double(i as nat);
        }
        p = p * 2;
        i = i + 1;
    }
    p
}

/// Shows a token count compactly: below a thousand as is, else in
/// thousands (`k`) or, from a million on, in millions (`m`), with one
/// decimal, rounded as a binary64 quotient rendered to one place is.
pub fn format_tokens(n: u32) -> (r: String)
    ensures
        r@ == format_tokens_spec(n as nat),
{
    let mut r = String::new();
    if n < 1000 {
        push_decimal(&mut r, n as u128);
        assert(r@ =~= format_tokens_spec(n as nat));
        return r;
    }
    let den: u64 = if n < 1_000_000 { 1000 } else { 1_000_000 };
    let (m, s) = nearest_binary64(n as u64, den);
    let p = pow2_u128(s);
    proof {
        lemma_pow2_values();
    }
    let t = round_half_even_u128(10 * m, p);
    push_decimal(&mut r, t / 10);
    push_char(&mut r, '.');
    push_char(&mut r, ((t % 10) as u8 + 48) as char);
    if n < 1_000_000 {
        push_char(&mut r, 'k');
    } else {
        push_char(&mut r, 'm');
    }
    assert(r@ =~= format_tokens_spec(n as nat));
    r
}

/// How full the context window is, in percent, as the status bar shows
/// it (see `context_percent_spec`).
pub fn context_percent(size: u32, window: u32) -> (pct: u32)
    ensures
        pct as nat == context_percent_spec(size as nat, window as nat),
{
    if window == 0 || size == 0 {
        return 0;
    }
    let (m, s) = nearest_binary64(size as u64, window as u64);
    proof {
        lemma_pow2_values();
    }
    let p: u128 = 100 * m;
    let t: u32 = if p >= 0x800000000000000 { 7 } else { 6 };
    let two_t = pow2_u128(t);
    let m2 = round_half_even_u128(p, two_t);
    let d = pow2_u128(s - t);
    let v = m2 / d;
    if v > 0xffff_ffff {
        u32::MAX
    } else {
        v as u32
    }
}

/// `round_half_even` of an exact multiple is the multiple.
proof fn lemma_round_exact(x: nat, d: nat)
    requires
        d > 0,
    ensures
        round_half_even(x * d, d) == x,
{
    lemma_div_multiples_vanish(x as int, d as int);
    lemma_mod_multiples_basic(x as int, d as int);
    assert(d * x == x * d) by (nonlinear_arith);
}

/// A whole number of units is its own binary64 quotient, so it shows
/// with `.0`, whatever the scale.
proof fn lemma_whole_units_tenths(q: nat, unit: nat)
    requires
        unit > 0,
    ensures
        tenths_of(q * unit, unit) == 10 * q,
{
    let s = scale_of(q * unit, unit);
    let p = pow2(s);
    lemma_pow2_pos(s);
    assert(q * unit * p == (q * p) * unit) by (nonlinear_arith);
    lemma_round_exact(q * p, unit);
    assert(mantissa_of(q * unit, unit) == q * p);
    assert(10 * (q * p) == (10 * q) * p) by (nonlinear_arith);
    lemma_round_exact(10 * q, p);
}

/// A whole number of thousands below a million shows as that number with
/// `.0k`, a whole number of millions as that number with `.0m`.
pub proof fn law_whole_units_show_point_zero(q: nat)
    ensures
        1 <= q < 1000 ==> format_tokens_spec(q * 1000) == decimal(q) + ".0k"@,
        1 <= q ==> format_tokens_spec(q * 1_000_000) == decimal(q) + ".0m"@,
{
    reveal_strlit(".0k");
    reveal_strlit(".0m");
    if 1 <= q {
        lemma_whole_units_tenths(q, 1000);
        lemma_whole_units_tenths(q, 1_000_000);
        assert((10 * q) / 10 == q && (10 * q) % 10 == 0) by (nonlinear_arith);
        assert(digit_char(0) == '0');
        assert(one_decimal(10 * q).push('k') =~= decimal(q) + ".0k"@);
        assert(one_decimal(10 * q).push('m') =~= decimal(q) + ".0m"@);
    }
}

/// A context window filled exactly shows 100%.
pub proof fn law_full_window_is_hundred_percent(window: nat)
    requires
        window > 0,
    ensures
        context_percent_spec(window, window) == 100,
{
    lemma_pow2_values();
    assert(normalized(window, window, 52)) by (nonlinear_arith)
        requires
            window > 0,
            pow2(52) == 0x10000000000000,
            pow2(53) == 0x20000000000000,
    ;
    lemma_scale_unique(window, window, 52, scale_of(window, window));
    lemma_round_exact(pow2(52), window);
    assert(window * pow2(52) == pow2(52) * window) by (nonlinear_arith);
    let m = mantissa_of(window, window);
    assert(m == 0x10000000000000);
    lemma2_to64();
    lemma2_to64_rest();
    assert(pow2(6) == 64);
    assert(pow2(46) == 0x400000000000);
    lemma_round_exact(100 * 0x400000000000, 64);
    lemma_div_multiples_vanish(100, 0x400000000000);
}

/// Some scale normalizes `num / den`, searching up from `k`.
proof fn lemma_scale_exists_from(num: nat, den: nat, k: nat)
    requires
        0 < num < 0x100000000,
        0 < den < 0x100000000,
        k <= 84,
        num * pow2(k) < pow2(53) * den,
    ensures
        normalized(num, den, scale_of(num, den)),
    decreases 84 - k,
{
    lemma_pow2_values();
    if pow2(52) * den <= num * pow2(k) {
        assert(normalized(num, den, k));
    } else {
        if k == 84 {
            assert(num * pow2(84) >= pow2(84)) by (nonlinear_arith)
                requires
                    num >= 1,
                    pow2(84) > 0,
            ;
            assert(pow2(52) * den < pow2(84)) by (nonlinear_arith)
                requires
                    den < 0x100000000,
                    pow2(52) == 0x10000000000000,
                    pow2(84) == 0x1000000000000000000000,
            ;
        } else {
            lemma_pow2_double(k);
            assert(num * pow2(k + 1) == 2 * (num * pow2(k))) by (nonlinear_arith)
                requires
                    pow2(k + 1) == pow2(k) * 2,
            ;
            assert(pow2(53) * den == 2 * (pow2(52) * den)) by (nonlinear_arith)
                requires
                    pow2(53) == pow2(52) * 2,
            ;
            lemma_scale_exists_from(num, den, k + 1);
        }
    }
}

/// `round_half_even(a, b)` is within half of `b` of `a` once multiplied
/// back by `b`.
proof fn lemma_round_error(a: nat, b: nat)
    requires
        b > 0,
    ensures
        2 * a <= 2 * round_half_even(a, b) * b + b,
        2 * round_half_even(a, b) * b <= 2 * a + b,
{
    let q = a / b;
    let r = a % b;
    assert(a == q * b + r && 0 <= r < b) by (nonlinear_arith)
        requires
            q == a / b,
            r == a % b,
            b > 0,
    ;
    let x = round_half_even(a, b);
    if x == q {
        assert(2 * r <= b);
        assert(2 * x * b == 2 * (q * b)) by (nonlinear_arith)
            requires
                x == q,
        ;
    } else {
        assert(x == q + 1);
        assert(2 * r >= b);
        assert(2 * x * b == 2 * (q * b) + 2 * b) by (nonlinear_arith)
            requires
                x == q + 1,
        ;
    }
}

/// The figure `format_tokens` shows is the quotient rounded to the
/// nearest tenth: `n / unit` in tenths, `tenths_of(n, unit)`, is within
/// half a tenth of the exact quotient (on an exact half, either neighbour
/// may show). `unit` is 1000 for the `k` range and a million for the `m`
/// range.
pub proof fn law_tokens_shown_to_nearest_tenth(n: nat, unit: nat)
    requires
        (unit == 1000 && 1000 <= n < 1_000_000) || (unit == 1_000_000 && 1_000_000 <= n
            < 0x100000000),
    ensures
        20 * n <= 2 * unit * tenths_of(n, unit) + unit,
        2 * unit * tenths_of(n, unit) <= 20 * n + unit,
{
    lemma_pow2_values();
    assert(n * pow2(0) < pow2(53) * unit) by (nonlinear_arith)
        requires
            n < 0x100000000,
            unit >= 1,
            pow2(0) == 1,
            pow2(53) == 0x20000000000000,
    ;
    lemma_scale_exists_from(n, unit, 0);
    let s = scale_of(n, unit);
    let p = pow2(s);
    lemma_pow2_pos(s);
    // The scale is at least 40: n < 2^13 * unit, so p > 2^39 > 10 * unit.
    lemma2_to64_rest();
    if s <= 39 {
        if s < 39 {
            lemma_pow2_strictly_increases(s, 39);
        }
        assert(pow2(39) == 0x8000000000);
        assert(n * p < pow2(52) * unit) by (nonlinear_arith)
            requires
                n < 0x2000 * unit,
                p <= 0x8000000000,
                pow2(52) == 0x10000000000000,
        ;
    }
    if s > 39 {
        lemma_pow2_strictly_increases(39, s);
    }
    assert(pow2(39) == 0x8000000000);
    assert(10 * unit < p);
    let m = mantissa_of(n, unit);
    let t = tenths_of(n, unit);
    lemma_round_error(n * p, unit);
    lemma_round_error(10 * m, p);
    // 2 t p d <= (20 m + p) d <= 10 (2 n p + d) + p d, and 10 d < p.
    assert(2 * t * unit * p <= (20 * n + unit) * p + 10 * unit) by (nonlinear_arith)
        requires
            2 * m * unit <= 2 * (n * p) + unit,
            2 * t * p <= 2 * (10 * m) + p,
            unit > 0,
    ;
    assert((20 * n) * p <= (2 * t * unit + unit) * p + 10 * unit) by (nonlinear_arith)
        requires
            2 * (n * p) <= 2 * m * unit + unit,
            2 * (10 * m) <= 2 * t * p + p,
            unit > 0,
    ;
    assert(2 * t * unit <= 20 * n + unit) by (nonlinear_arith)
        requires
            2 * t * unit * p <= (20 * n + unit) * p + 10 * unit,
            10 * unit < p,
    ;
    assert(20 * n <= 2 * t * unit + unit) by (nonlinear_arith)
        requires
            (20 * n) * p <= (2 * t * unit + unit) * p + 10 * unit,
            10 * unit < p,
    ;
    assert(2 * t * unit == 2 * unit * t) by (nonlinear_arith);
}

/// The context gauge shows the exact percentage `100 * size / window`
/// rounded down (up to `u32::MAX`), except that an exact whole
/// percentage may show one lower: binary64 can land just below it, as
/// 29 of 100 shows 28%.
pub proof fn law_context_percent_rounds_down(size: nat, window: nat)
    requires
        size < 0x100000000,
        0 < window < 0x100000000,
    ensures
        context_percent_spec(size, window) <= 100 * size / window,
        (100 * size) % window != 0 ==> context_percent_spec(size, window) == if 100 * size / window
            > u32::MAX { u32::MAX as nat } else { 100 * size / window },
        (100 * size) % window == 0 ==> context_percent_spec(size, window) + 1 >= if 100 * size
            / window > u32::MAX { u32::MAX as nat } else { 100 * size / window },
{
    let a = size;
    let w = window;
    let k = 100 * a / w;
    let f = (100 * a) % w;
    assert(100 * a == k * w + f && 0 <= f < w) by (nonlinear_arith)
        requires
            k == 100 * a / w,
            f == (100 * a) % w,
            w > 0,
    ;
    if a == 0 {
        assert(k == 0) by (nonlinear_arith)
            requires
                100 * a == k * w + f,
                a == 0,
                0 <= f,
                w > 0,
                k >= 0,
        ;
    } else {
        lemma_pow2_values();
        assert(a * pow2(0) < pow2(53) * w) by (nonlinear_arith)
            requires
                a < 0x100000000,
                w >= 1,
                pow2(0) == 1,
                pow2(53) == 0x20000000000000,
        ;
        lemma_scale_exists_from(a, w, 0);
        let s = scale_of(a, w);
        let big_p = pow2(s);
        lemma_pow2_pos(s);
        let m = mantissa_of(a, w);
        // 2^s > 2^20 * w >= 114 * w, since a * 2^s >= 2^52 * w and a < 2^32.
        assert(big_p > 114 * w) by (nonlinear_arith)
            requires
                a * big_p >= 0x10000000000000 * w,
                a < 0x100000000,
                w > 0,
                big_p > 0,
        ;
        lemma_round_error(a * big_p, w);
        // The mantissa lies in [2^52, 2^53].
        assert(0x10000000000000 <= m <= 0x20000000000000) by {
            let q = (a * big_p) / w;
            assert(q * w <= a * big_p < (q + 1) * w) by (nonlinear_arith)
                requires
                    q == (a * big_p) / w,
                    w > 0,
            ;
            assert(0x10000000000000 <= q < 0x20000000000000) by (nonlinear_arith)
                requires
                    0x10000000000000 * w <= a * big_p,
                    a * big_p < 0x20000000000000 * w,
                    q * w <= a * big_p < (q + 1) * w,
                    w > 0,
            ;
        }
        let prod = 100 * m;
        let t: nat = if prod >= pow2(59) { 7 } else { 6 };
        let big_t = pow2(t);
        lemma2_to64();
        assert(big_t == 64 || big_t == 128);
        let m2 = round_half_even(prod, big_t);
        lemma_round_error(prod, big_t);
        // s >= 21 > t, so 2^s = 2^(s - t) * 2^t.
        if s <= 20 {
            if s < 20 {
                lemma_pow2_strictly_increases(s, 20);
            }
            assert(false) by (nonlinear_arith)
                requires
                    big_p <= 0x100000,
                    a * big_p >= 0x10000000000000 * w,
                    a < 0x100000000,
                    w > 0,
            ;
        }
        let d = pow2((s - t) as nat);
        lemma_pow2_adds((s - t) as nat, t);
        lemma_pow2_pos((s - t) as nat);
        assert(big_p == d * big_t);
        let v = m2 / d;
        let y = m2 * big_t;
        assert(v * big_p <= y < (v + 1) * big_p) by (nonlinear_arith)
            requires
                v == m2 / d,
                y == m2 * big_t,
                big_p == d * big_t,
                d > 0,
                big_t > 0,
        ;
        // |y * w - 100 * a * 2^s| <= 114 * w.
        assert(y * w <= 100 * a * big_p + 114 * w) by (nonlinear_arith)
            requires
                2 * m2 * big_t <= 2 * prod + big_t,
                prod == 100 * m,
                2 * m * w <= 2 * (a * big_p) + w,
                big_t <= 128,
                y == m2 * big_t,
                w > 0,
        ;
        assert(100 * a * big_p <= y * w + 114 * w) by (nonlinear_arith)
            requires
                2 * prod <= 2 * m2 * big_t + big_t,
                prod == 100 * m,
                2 * (a * big_p) <= 2 * m * w + w,
                big_t <= 128,
                y == m2 * big_t,
                w > 0,
        ;
        assert(v <= k) by (nonlinear_arith)
            requires
                v * big_p <= y,
                y * w <= 100 * a * big_p + 114 * w,
                100 * a == k * w + f,
                f < w,
                big_p > 114 * w,
                w > 0,
        ;
        if f != 0 {
            assert(v >= k) by (nonlinear_arith)
                requires
                    y < (v + 1) * big_p,
                    100 * a * big_p <= y * w + 114 * w,
                    100 * a == k * w + f,
                    f >= 1,
                    big_p > 114 * w,
                    w > 0,
            ;
        } else {
            assert(v + 1 >= k) by (nonlinear_arith)
                requires
                    y < (v + 1) * big_p,
                    100 * a * big_p <= y * w + 114 * w,
                    100 * a == k * w,
                    big_p > 114 * w,
                    w > 0,
            ;
        }
        assert(context_percent_spec(size, window) == if v > u32::MAX { u32::MAX as nat } else { v });
    }
}

} // verus!
