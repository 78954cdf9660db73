//! Quotients as binary64 arithmetic gives them, worked out in integers.
//!
//! A table's row estimate is divided down and printed with a digit or none
//! after the point. The quotient is first rounded to 53 significant bits, to
//! nearest with ties to even, and the rounded value is then rounded again to
//! the digits that are printed. Both roundings show, so both are stated.
use vstd::arithmetic::power2::{
    lemma2_to64, lemma2_to64_rest, lemma_pow2_adds, lemma_pow2_pos, lemma_pow2_strictly_increases,
    lemma_pow2_unfold, pow2,
};
use vstd::prelude::*;

verus! {

/// Two to the power of 52: how many steps a binary64 number has in a binade.
pub const STEPS: u64 = 0x10_0000_0000_0000;

/// The integer nearest to `a / b`, ties going to the even one.
pub open spec fn half_even(a: nat, b: nat) -> nat
    recommends
        b > 0,
{
    let q = a / b;
    let r = a % b;
    if 2 * r < b || (2 * r == b && q % 2 == 0) {
        q
    } else {
        q + 1
    }
}

/// The largest `e` for which `b * 2^e <= a`, and zero when there is none.
pub open spec fn binade(a: nat, b: nat) -> nat
    decreases a - b,
{
    if b == 0 || a < 2 * b {
        0
    } else {
        1 + binade(a, 2 * b)
    }
}

/// The 53 significant bits of the binary64 number nearest to `a / b`, which is
/// at least one. The number itself is this times `2^binade(a, b) / 2^52`.
pub open spec fn significand(a: nat, b: nat) -> nat {
    half_even(a * STEPS as nat, b * pow2(binade(a, b)))
}

/// The binary64 number nearest to `a / b`, in units of `2^-52`.
pub open spec fn nearest(a: nat, b: nat) -> nat {
    significand(a, b) * pow2(binade(a, b))
}

/// A whole number as binary64 holds it.
pub open spec fn whole(n: nat) -> nat {
    nearest(n, 1) / STEPS as nat
}

/// A quotient of binary64 numbers, scaled and rounded to an integer for
/// printing: `n` is converted, divided by `by`, and the quotient times `scale`
/// is rounded half to even.
pub open spec fn scaled_quotient(n: nat, by: nat, scale: nat) -> nat {
    half_even(nearest(whole(n), by) * scale, STEPS as nat)
}

proof fn lemma_half_even_bound(a: nat, b: nat, top: nat)
    requires
        b > 0,
        a <= top * b,
    ensures
        half_even(a, b) <= top,
{
    let q = a / b;
    let r = a % b;
    assert(a == q * b + r) by (nonlinear_arith)
        requires
            b > 0,
            q == a / b,
            r == a % b,
    ;
    assert(q <= top) by (nonlinear_arith)
        requires
            q * b + r <= top * b,
            r >= 0,
            b > 0,
    ;
    if q == top {
        assert(r == 0) by (nonlinear_arith)
            requires
                q * b + r <= top * b,
                q == top,
                r >= 0,
        ;
    }
}

proof fn lemma_binade(a: nat, b: nat)
    requires
        0 < b <= a,
    ensures
        b * pow2(binade(a, b)) <= a < 2 * (b * pow2(binade(a, b))),
    decreases a - b,
{
    if a >= 2 * b {
        lemma_binade(a, 2 * b);
        let e = binade(a, 2 * b);
        lemma_pow2_unfold(e + 1);
        let p = pow2(e);
        assert((2 * b) * p == b * (2 * p)) by (nonlinear_arith);
    } else {
        lemma2_to64();
        assert(binade(a, b) == 0);
    }
}

/// The integer nearest to `a / b`, ties going to the even one.
fn rounded(a: u128, b: u128) -> (n: u128)
    requires
        0 < b < 0x1_0000_0000_0000_0000_0000_0000_0000,
    ensures
        n == half_even(a as nat, b as nat),
{
    let q: u128 = a / b;
    let r: u128 = a % b;
    if 2 * r < b || (2 * r == b && q % 2 == 0) {
        q
    } else {
        assert(q < u128::MAX) by (nonlinear_arith)
            requires
                q == a / b,
                r == a % b,
                b > 0,
                r > 0 || b == 1,
                2 * r >= b,
                a <= u128::MAX,
        ;
        q + 1
    }
}

/// The binary64 number nearest to `a / b`, in units of `2^-52`.
fn nearest_of(a: u64, b: u64) -> (n: u128)
    requires
        0 < b <= a,
    ensures
        n == nearest(a as nat, b as nat),
        n * b <= 2 * STEPS * a,
{
    proof {
        lemma2_to64();
        lemma_binade(a as nat, b as nat);
    }
    let ghost e = binade(a as nat, b as nat);
    let wide: u128 = a as u128;
    let mut step: u128 = b as u128;
    let mut power: u128 = 1;
    let ghost mut k: nat = 0;
    assert(pow2(0) == 1);
    while step * 2 <= wide
        invariant
            0 < b <= a,
            wide == a,
            step == b * power,
            power == pow2(k),
            e == binade(a as nat, b as nat),
            step <= wide <= u64::MAX,
            1 <= power <= step,
            binade(a as nat, step as nat) + k == e,
        decreases wide - step,
    {
        proof {
            lemma_pow2_unfold(k + 1);
            assert(binade(a as nat, step as nat) == 1 + binade(a as nat, 2 * step as nat));
            assert(b * (2 * power) == 2 * (b * power)) by (nonlinear_arith);
            k = k + 1;
        }
        step = step * 2;
        power = power * 2;
    }
    assert(k == e);
    let ghost top: nat = 0x20_0000_0000_0000;
    assert(wide * 0x10_0000_0000_0000 <= u64::MAX * 0x10_0000_0000_0000) by (nonlinear_arith)
        requires
            wide <= u64::MAX,
    ;
    let m: u128 = rounded(wide * 0x10_0000_0000_0000, step);
    proof {
        assert(wide * 0x10_0000_0000_0000 <= top * step) by (nonlinear_arith)
            requires
                wide < 2 * step,
                top == 0x20_0000_0000_0000,
        ;
        lemma_half_even_bound((wide * 0x10_0000_0000_0000) as nat, step as nat, top);
        assert(m * power <= top * u64::MAX) by (nonlinear_arith)
            requires
                m <= top,
                power <= u64::MAX,
        ;
        assert((m * power) * b <= top * wide) by (nonlinear_arith)
            requires
                m <= top,
                b * power <= wide,
        ;
        assert(a as nat * STEPS as nat == wide * 0x10_0000_0000_0000);
    }
    m * power
}

/// A whole number of at most 53 bits is held exactly.
pub proof fn whole_numbers_of_53_bits_are_exact(n: nat)
    requires
        1 <= n < 2 * STEPS,
    ensures
        nearest(n, 1) == n * STEPS as nat,
        whole(n) == n,
{
    let e = binade(n, 1);
    lemma_binade(n, 1);
    lemma2_to64();
    lemma2_to64_rest();
    if e > 52 {
        if e > 53 {
            lemma_pow2_strictly_increases(53, e);
        }
        assert(false);
    }
    let rest = (52 - e) as nat;
    lemma_pow2_adds(e, rest);
    lemma_pow2_pos(e);
    let p = pow2(e);
    let r = pow2(rest);
    let s = STEPS as nat;
    assert(n * s == (n * r) * p) by (nonlinear_arith)
        requires
            s == p * r,
    ;
    assert(1 * p == p);
    vstd::arithmetic::div_mod::lemma_fundamental_div_mod_converse(
        (n * s) as int,
        p as int,
        (n * r) as int,
        0,
    );
    assert(half_even(n * s, p) == n * r);
    assert((n * s) / s == n) by (nonlinear_arith)
        requires
            s > 0,
    ;
}

/// A quotient that comes out whole, of at most 53 bits, is printed as it is,
/// whatever it is scaled by.
pub proof fn a_whole_quotient_is_exact(m: nat, by: nat, scale: nat)
    requires
        1 <= m,
        1 <= by,
        m * by < 2 * STEPS,
    ensures
        scaled_quotient(m * by, by, scale) == m * scale,
{
    let n = m * by;
    assert(m <= n && by <= n) by (nonlinear_arith)
        requires
            1 <= m,
            1 <= by,
            n == m * by,
    ;
    whole_numbers_of_53_bits_are_exact(n);
    let e = binade(n, by);
    lemma_binade(n, by);
    lemma2_to64();
    lemma2_to64_rest();
    lemma_pow2_pos(e);
    let p = pow2(e);
    assert(p <= m) by (nonlinear_arith)
        requires
            by * p <= m * by,
            1 <= by,
    ;
    if e > 52 {
        if e > 53 {
            lemma_pow2_strictly_increases(53, e);
        }
        assert(false);
    }
    let rest = (52 - e) as nat;
    lemma_pow2_adds(e, rest);
    let r = pow2(rest);
    let s = STEPS as nat;
    assert(n * s == (m * r) * (by * p)) by (nonlinear_arith)
        requires
            s == p * r,
            n == m * by,
    ;
    assert(by * p > 0) by (nonlinear_arith)
        requires
            by >= 1,
            p > 0,
    ;
    vstd::arithmetic::div_mod::lemma_fundamental_div_mod_converse(
        (n * s) as int,
        (by * p) as int,
        (m * r) as int,
        0,
    );
    assert(half_even(n * s, by * p) == m * r);
    assert((m * r) * p == m * s) by (nonlinear_arith)
        requires
            s == p * r,
    ;
    assert(nearest(whole(n), by) == m * s);
    assert((m * s) * scale == (m * scale) * s) by (nonlinear_arith);
    vstd::arithmetic::div_mod::lemma_fundamental_div_mod_converse(
        ((m * s) * scale) as int,
        s as int,
        (m * scale) as int,
        0,
    );
}

/// A whole number of more than 53 bits stays at least that large.
proof fn lemma_whole_large(n: nat)
    requires
        2 * STEPS <= n,
    ensures
        STEPS <= whole(n),
{
    let e = binade(n, 1);
    lemma_binade(n, 1);
    lemma2_to64();
    lemma2_to64_rest();
    if e < 52 {
        lemma_pow2_strictly_increases(e, 52);
        assert(false);
    }
    if e > 52 {
        lemma_pow2_strictly_increases(52, e);
    }
    let p = pow2(e);
    let s = STEPS as nat;
    let q = (n * s) / p;
    assert(1 * p == p);
    assert(q >= s) by (nonlinear_arith)
        requires
            q == (n * s) / p,
            p <= n,
            p > 0,
            s > 0,
    ;
    let m = half_even(n * s, p);
    assert((m * p) / s >= s) by (nonlinear_arith)
        requires
            m >= s,
            p >= s,
            s > 0,
    ;
}

/// Divide as binary64 does, scale, and round for printing.
///
/// `n` is converted and divided by `by`; the quotient times `scale` is rounded
/// half to even.
pub fn scaled_quotient_of(n: u64, by: u64, scale: u64) -> (printed: u64)
    requires
        1000 <= by <= n,
        by <= STEPS,
        n <= i64::MAX,
        1 <= scale <= 100,
    ensures
        printed == scaled_quotient(n as nat, by as nat, scale as nat),
{
    let held: u128 = nearest_of(n, 1) / STEPS as u128;
    proof {
        if n < 2 * STEPS {
            whole_numbers_of_53_bits_are_exact(n as nat);
        } else {
            lemma_whole_large(n as nat);
        }
        assert(held <= 2 * n) by (nonlinear_arith)
            requires
                held <= (2 * STEPS * n) / STEPS as int,
                STEPS == 0x10_0000_0000_0000,
        ;
        assert(held == whole(n as nat));
    }
    let quotient: u128 = nearest_of(held as u64, by);
    proof {
        assert(quotient * scale <= held * STEPS) by (nonlinear_arith)
            requires
                quotient * by <= 2 * STEPS * held,
                1000 <= by,
                1 <= scale <= 100,
                STEPS == 0x10_0000_0000_0000,
        ;
        assert(held * STEPS <= u64::MAX * STEPS) by (nonlinear_arith)
            requires
                held <= u64::MAX,
                STEPS == 0x10_0000_0000_0000,
        ;
        lemma_half_even_bound((quotient * scale) as nat, STEPS as nat, held as nat);
    }
    let printed: u128 = rounded(quotient * scale as u128, STEPS as u128);
    printed as u64
}

} // verus!
