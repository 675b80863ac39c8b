//! Percentages computed as a 64-bit float computes them: the count and the
//! total are each converted to the nearest double, their quotient is rounded
//! to the nearest double, and so is that quotient times a hundred (each
//! rounding to nearest, ties to even); the result is then truncated or
//! rounded to a whole number. Everything is done on integers.
use vstd::prelude::*;

verus! {

/// Two to the power `e`.
pub open spec fn two_to(e: nat) -> int
    decreases e,
{
    if e == 0 {
        1
    } else {
        2 * two_to((e - 1) as nat)
    }
}

/// `q`, the quotient of a division by `d` that left `r`, rounded to the
/// nearest integer, ties to the even one.
pub open spec fn round_even(q: int, r: int, d: int) -> int {
    if 2 * r > d || (2 * r == d && q % 2 == 1) {
        q + 1
    } else {
        q
    }
}

/// The least `k` from `k0` on with `x / 2^k` below `2^53`.
pub open spec fn conv_shift(x: int, k: nat) -> nat
    decreases 200 - k,
{
    if k >= 200 || x / two_to(k) < two_to(53) {
        k
    } else {
        conv_shift(x, k + 1)
    }
}

/// The double nearest the integer `x` (itself an integer): `x` below `2^53`,
/// else `x` rounded to 53 significant bits.
pub open spec fn to_double(x: int) -> int {
    let k = conv_shift(x, 0);
    round_even(x / two_to(k), x % two_to(k), two_to(k)) * two_to(k)
}

/// The least `s` from `s0` on with `a * 2^s >= 2^52 * b`.
pub open spec fn norm_shift(a: int, b: int, s: nat) -> nat
    decreases 200 - s,
{
    if s >= 200 || a * two_to(s) >= two_to(52) * b {
        s
    } else {
        norm_shift(a, b, s + 1)
    }
}

/// The double nearest `a / b`, as `(m, s)` for `m / 2^s` with `m` of 53
/// significant bits (`(0, 0)` for zero).
pub open spec fn double_ratio(a: int, b: int) -> (int, int) {
    if a == 0 {
        (0, 0)
    } else {
        let s = norm_shift(a, b, 0);
        let n = a * two_to(s);
        let m = round_even(n / b, n % b, b);
        if m == two_to(53) {
            (two_to(52), s - 1)
        } else {
            (m, s as int)
        }
    }
}

/// The double nearest a hundred times the double `m / 2^s`, as `(m2, k)`
/// for `m2 / 2^k`.
pub open spec fn hundredfold(m: int, s: int) -> (int, int) {
    let p = 100 * m;
    let t: nat = if p < two_to(59) {
        6
    } else {
        7
    };
    (round_even(p / two_to(t), p % two_to(t), two_to(t)), s - t)
}

/// `(c as f64 / n as f64 * 100.0) as i32` for `c <= 2 * n`: the percentage
/// truncated.
pub open spec fn f64_percent_trunc(c: int, n: int) -> int {
    let d = double_ratio(to_double(c), to_double(n));
    if d.0 == 0 {
        0
    } else {
        let h = hundredfold(d.0, d.1);
        h.0 / two_to(h.1 as nat)
    }
}

/// `(c as f64 / n as f64 * 100.0).round() as i32` for `c <= 2 * n`: the
/// percentage rounded half away from zero.
pub open spec fn f64_percent_round(c: int, n: int) -> int {
    let d = double_ratio(to_double(c), to_double(n));
    if d.0 == 0 {
        0
    } else {
        let h = hundredfold(d.0, d.1);
        (h.0 + two_to((h.1 - 1) as nat)) / two_to(h.1 as nat)
    }
}

proof fn lemma_two_to_values()
    ensures
        two_to(6) == 64,
        two_to(7) == 128,
        two_to(52) == 0x10_0000_0000_0000,
        two_to(53) == 0x20_0000_0000_0000,
        two_to(59) == 0x800_0000_0000_0000,
        two_to(64) == 0x1_0000_0000_0000_0000,
        two_to(11) == 2048,
        two_to(41) == 0x200_0000_0000,
        two_to(48) == 0x1_0000_0000_0000,
{
    reveal_with_fuel(two_to, 65);
}

proof fn lemma_two_to_add(a: nat, b: nat)
    ensures
        two_to(a + b) == two_to(a) * two_to(b),
    decreases b,
{
    if b > 0 {
        lemma_two_to_add(a, (b - 1) as nat);
        assert(two_to(a + b) == 2 * two_to((a + b - 1) as nat));
        assert(two_to(a) * two_to(b) == two_to(a) * (2 * two_to((b - 1) as nat)));
        assert(two_to(a) * (2 * two_to((b - 1) as nat)) == 2 * (two_to(a) * two_to((b - 1) as nat))) by (nonlinear_arith);
    }
}

proof fn lemma_big_powers()
    ensures
        two_to(116) == 0x10_0000_0000_0000_0000_0000_0000_0000,
        two_to(117) == 0x20_0000_0000_0000_0000_0000_0000_0000,
        two_to(126) == 0x4000_0000_0000_0000_0000_0000_0000_0000,
{
    lemma_two_to_values();
    lemma_two_to_add(64, 52);
    lemma_two_to_add(64, 53);
    lemma_two_to_add(64, 62);
    assert(two_to(62) == 0x4000_0000_0000_0000) by {
        reveal_with_fuel(two_to, 63);
    }
}

proof fn lemma_shift_step(a: int, b: int, s: nat)
    requires
        s < 200,
        a * two_to(s) < two_to(52) * b,
    ensures
        norm_shift(a, b, s) == norm_shift(a, b, s + 1),
{
}

proof fn lemma_conv_step(x: int, k: nat)
    requires
        k < 200,
        x / two_to(k) >= two_to(53),
    ensures
        conv_shift(x, k) == conv_shift(x, k + 1),
{
}

proof fn lemma_two_to_pos(e: nat)
    ensures
        two_to(e) >= 1,
    decreases e,
{
    if e > 0 {
        lemma_two_to_pos((e - 1) as nat);
    }
}

proof fn lemma_two_to_mono(a: nat, b: nat)
    requires
        a <= b,
    ensures
        two_to(a) <= two_to(b),
    decreases b,
{
    if a < b {
        lemma_two_to_mono(a, (b - 1) as nat);
        lemma_two_to_pos((b - 1) as nat);
    }
}

fn round_nearest_even(q: u128, r: u128, d: u128) -> (m: u128)
    requires
        q < 0xffff_ffff_ffff_ffff_ffff_ffff_ffff_fff0,
        r < d,
        d <= 0x1_0000_0000_0000_0000_0000_0000_0000,
    ensures
        m == round_even(q as int, r as int, d as int),
{
    if 2 * r > d || (2 * r == d && q % 2 == 1) {
        q + 1
    } else {
        q
    }
}

/// The integer `x` converted to the nearest double.
fn double_of(x: u64) -> (v: u128)
    ensures
        v == to_double(x as int),
        v <= 2 * x,
        x <= 2 * v,
{
    proof {
        lemma_two_to_values();
    }
    let xx = x as u128;
    let mut k: u32 = 0;
    let mut p: u128 = 1;
    assert(two_to(0) == 1);
    while xx / p >= 0x20_0000_0000_0000
        invariant
            p == two_to(k as nat),
            p >= 1,
            k <= 11,
            p <= 2048,
            xx == x as int,
            xx < 0x1_0000_0000_0000_0000,
            two_to(53) == 0x20_0000_0000_0000,
            two_to(11) == 2048,
            conv_shift(xx as int, 0) == conv_shift(xx as int, k as nat),
            k > 0 ==> xx / (p / 2) >= 0x20_0000_0000_0000,
        decreases 12 - k,
    {
        if k == 11 {
            assert(p == 2048) by {
                lemma_two_to_mono(11, 11);
            }
            assert(xx / 2048 < 0x20_0000_0000_0000) by (nonlinear_arith)
                requires
                    xx < 0x1_0000_0000_0000_0000,
            ;
            assert(false);
        }
        proof {
            lemma_conv_step(xx as int, k as nat);
        }
        let ghost old_p = p;
        p = p * 2;
        k = k + 1;
        proof {
            assert(two_to(k as nat) == 2 * two_to((k - 1) as nat));
            lemma_two_to_mono(k as nat, 11);
            assert(p / 2 == old_p);
        }
    }
    assert(conv_shift(xx as int, k as nat) == k);
    let q = xx / p;
    let r = xx % p;
    let m = round_nearest_even(q, r, p);
    assert(xx == q * p + r) by (nonlinear_arith)
        requires
            p >= 1,
            q == xx / p,
            r == xx % p,
    ;
    if k == 0 {
        assert(p == 1);
        assert(r == 0);
        assert(m == q);
    } else {
        assert(xx >= p) by (nonlinear_arith)
            requires
                p >= 2,
                xx / (p / 2) >= 0x20_0000_0000_0000,
        ;
    }
    assert(m * p <= 2 * xx && xx <= 2 * (m * p)) by (nonlinear_arith)
        requires
            xx == q * p + r,
            0 <= r < p,
            m == q || m == q + 1,
            p == 1 ==> r == 0 && m == q,
            p >= 2 ==> xx >= p,
            p >= 1,
    ;
    m * p
}

/// The double nearest `a / b`, as `(m, s)` for `m / 2^s`.
fn ratio_of(a: u128, b: u128) -> (d: (u128, u32))
    requires
        1 <= b <= 0x2_0000_0000_0000_0000,
        a <= 8 * b,
    ensures
        (d.0 as int, d.1 as int) == double_ratio(a as int, b as int),
        d.0 <= 0x20_0000_0000_0000,
        d.0 == 0 || (d.1 >= 48 && d.0 >= 1),
        d.1 <= 120,
{
    proof {
        lemma_two_to_values();
    }
    if a == 0 {
        return (0, 0);
    }
    let mut s: u32 = 0;
    let mut p: u128 = 1;
    assert(two_to(0) == 1);
    let lim: u128 = 0x10_0000_0000_0000 * b;
    assert(a * p < 0x20_0000_0000_0000 * b);
    while a * p < lim
        invariant
            1 <= b <= 0x2_0000_0000_0000_0000,
            1 <= a <= 8 * b,
            lim == 0x10_0000_0000_0000 * b,
            p == two_to(s as nat),
            p >= 1,
            s <= 118,
            a * p < 0x20_0000_0000_0000 * b,
            two_to(52) == 0x10_0000_0000_0000,
            norm_shift(a as int, b as int, 0) == norm_shift(a as int, b as int, s as nat),
        decreases 200 - s,
    {
        proof {
            lemma_shift_step(a as int, b as int, s as nat);
            lemma_big_powers();
            if s < 117 {
                lemma_two_to_mono(s as nat, 116);
            }
            if s >= 117 {
                lemma_two_to_mono(117, s as nat);
                assert(a * p >= p) by (nonlinear_arith)
                    requires
                        a >= 1,
                        p >= 1,
                ;
                assert(false);
            }
            assert(a * (2 * p) == 2 * (a * p)) by (nonlinear_arith);
        }
        p = p * 2;
        s = s + 1;
    }
    assert(norm_shift(a as int, b as int, s as nat) == s);
    let n = a * p;
    let q = n / b;
    let r = n % b;
    assert(q < 0x20_0000_0000_0000) by (nonlinear_arith)
        requires
            n < 0x20_0000_0000_0000 * b,
            b >= 1,
            q == n / b,
    ;
    let m = round_nearest_even(q, r, b);
    assert(s >= 49) by {
        if s < 49 {
            lemma_two_to_mono(s as nat, 48);
            assert(two_to(48) == 0x1_0000_0000_0000) by {
                reveal_with_fuel(two_to, 49);
            }
            assert(a * p <= 8 * b * 0x1_0000_0000_0000) by (nonlinear_arith)
                requires
                    a <= 8 * b,
                    p <= 0x1_0000_0000_0000,
            ;
        }
    }
    assert(m >= 1) by (nonlinear_arith)
        requires
            n >= 0x10_0000_0000_0000 * b,
            q == n / b,
            b >= 1,
            m >= q,
    ;
    if m == 0x20_0000_0000_0000 {
        (0x10_0000_0000_0000, s - 1)
    } else {
        (m, s)
    }
}

/// A hundred times the double `m / 2^s`, rounded to a double `m2 / 2^k`.
fn hundredfold_of(m: u128, s: u32) -> (h: (u128, u32))
    requires
        1 <= m <= 0x20_0000_0000_0000,
        48 <= s <= 120,
    ensures
        (h.0 as int, h.1 as int) == hundredfold(m as int, s as int),
        h.0 <= 0x20_0000_0000_0000,
        41 <= h.1 <= 120,
{
    proof {
        lemma_two_to_values();
    }
    let p = 100 * m;
    let t: u32 = if p < 0x800_0000_0000_0000 {
        6
    } else {
        7
    };
    let d: u128 = if t == 6 {
        64
    } else {
        128
    };
    let q = p / d;
    let r = p % d;
    let m2 = round_nearest_even(q, r, d);
    assert(m2 <= 0x20_0000_0000_0000) by {
        assert(q <= 100 * 0x20_0000_0000_0000int / 64);
        if t == 6 {
            assert(q < 0x800_0000_0000_0000int / 64);
        } else {
            assert(q <= 100 * 0x20_0000_0000_0000int / 128);
        }
    }
    (m2, s - t)
}

/// Two to the power `k`.
fn power_of_two(k: u32) -> (p: u128)
    requires
        k <= 126,
    ensures
        p == two_to(k as nat),
{
    let mut p: u128 = 1;
    let mut i: u32 = 0;
    proof {
        lemma_big_powers();
    }
    while i < k
        invariant
            i <= k <= 126,
            p == two_to(i as nat),
            two_to(126) == 0x4000_0000_0000_0000_0000_0000_0000_0000,
        decreases k - i,
    {
        proof {
            lemma_two_to_mono(i as nat, 125);
            assert(two_to(126) == 2 * two_to(125));
        }
        p = p * 2;
        i = i + 1;
    }
    p
}

/// `(c as f64 / n as f64 * 100.0) as i32`, for `c <= 2 * n` and `n >= 1`.
#[verifier::spinoff_prover]
#[verifier::rlimit(40)]
pub fn percent_trunc(c: u64, n: u64) -> (r: i32)
    requires
        1 <= n,
        c <= 2 * n,
    ensures
        r == f64_percent_trunc(c as int, n as int),
        0 <= r <= 4096,
{
    let a = double_of(c);
    let b = double_of(n);
    assert(1 <= b <= 0x2_0000_0000_0000_0000 && a <= 8 * b);
    let d = ratio_of(a, b);
    let m = d.0;
    let s = d.1;
    let ghost dv = double_ratio(to_double(c as int), to_double(n as int));
    assert(dv == (m as int, s as int));
    if m == 0 {
        return 0;
    }
    let (m2, k) = hundredfold_of(m, s);
    let p = power_of_two(k);
    proof {
        lemma_two_to_mono(41, k as nat);
        assert(two_to(41) == 0x200_0000_0000) by {
                reveal_with_fuel(two_to, 42);
            }
        assert(m2 / p <= 4096) by (nonlinear_arith)
            requires
                m2 <= 0x20_0000_0000_0000,
                p >= 0x200_0000_0000,
        ;
    }
    (m2 / p) as i32
}

/// `(c as f64 / n as f64 * 100.0).round() as i32`, for `c <= 2 * n` and
/// `n >= 1`.
#[verifier::spinoff_prover]
#[verifier::rlimit(40)]
pub fn percent_round(c: u64, n: u64) -> (r: i32)
    requires
        1 <= n,
        c <= 2 * n,
    ensures
        r == f64_percent_round(c as int, n as int),
        0 <= r <= 4097,
{
    let a = double_of(c);
    let b = double_of(n);
    assert(1 <= b <= 0x2_0000_0000_0000_0000 && a <= 8 * b);
    let d = ratio_of(a, b);
    let m = d.0;
    let s = d.1;
    let ghost dv = double_ratio(to_double(c as int), to_double(n as int));
    assert(dv == (m as int, s as int));
    if m == 0 {
        return 0;
    }
    let (m2, k) = hundredfold_of(m, s);
    let p = power_of_two(k);
    let half = power_of_two(k - 1);
    proof {
        lemma_two_to_mono(41, k as nat);
        lemma_two_to_mono((k - 1) as nat, k as nat);
        assert(two_to(41) == 0x200_0000_0000) by {
                reveal_with_fuel(two_to, 42);
            }
        assert((m2 + half) as int / (p as int) <= 4097) by (nonlinear_arith)
            requires
                m2 <= 0x20_0000_0000_0000,
                half <= p,
                p >= 0x200_0000_0000,
        ;
    }
    ((m2 + half) / p) as i32
}

} // verus!
