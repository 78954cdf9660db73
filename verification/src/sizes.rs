//! The code sizes, as the bits of single-precision numbers.
//!
//! A size is stored as a number of points, and anything else than the sizes
//! offered is snapped to the nearest of them. The numbers are compared here as
//! the exact quantities they stand for, so that nearest means nearest.
use vstd::arithmetic::mul::{lemma_mul_inequality, lemma_mul_strict_inequality};
use vstd::arithmetic::power2::{
    lemma_pow2_pos, lemma_pow2_strictly_increases, lemma_pow2_unfold, pow2,
};
use vstd::prelude::*;

verus! {

/// Eleven points.
pub const ELEVEN: u32 = 0x4130_0000;

/// Twelve points.
pub const TWELVE: u32 = 0x4140_0000;

/// Twelve and a half points, which is the size of a window nobody has set.
pub const DEFAULT_MONO_SIZE: u32 = 0x4148_0000;

/// Fourteen points.
pub const FOURTEEN: u32 = 0x4160_0000;

/// Sixteen points.
pub const SIXTEEN: u32 = 0x4180_0000;

/// The first bits that do not stand for a finite number above zero: those of
/// infinity. Past them are what is not a number and everything below zero.
pub const INFINITE: u32 = 0x7f80_0000;

/// The code sizes that are offered, in the order they are.
pub open spec fn mono_size_list() -> Seq<u32> {
    seq![ELEVEN, TWELVE, DEFAULT_MONO_SIZE, FOURTEEN, SIXTEEN]
}

/// The code sizes offered, in points.
pub fn mono_sizes() -> (sizes: Vec<u32>)
    ensures
        sizes@ == mono_size_list(),
{
    let mut sizes: Vec<u32> = Vec::new();
    sizes.push(ELEVEN);
    sizes.push(TWELVE);
    sizes.push(DEFAULT_MONO_SIZE);
    sizes.push(FOURTEEN);
    sizes.push(SIXTEEN);
    assert(sizes@ =~= mono_size_list());
    sizes
}

/// How much the bits of a number above zero stand for, counted in the smallest
/// number that is above zero.
pub open spec fn magnitude(bits: u32) -> nat {
    let exponent = (bits / 0x80_0000) as nat;
    let fraction = (bits % 0x80_0000) as nat;
    if exponent == 0 {
        fraction
    } else {
        (0x80_0000 + fraction) * pow2((exponent - 1) as nat)
    }
}

/// Where the bits of the numbers below zero begin: the same again, with a sign.
pub const SIGN: u32 = 0x8000_0000;

/// Whether bits stand for a finite number.
pub open spec fn is_finite(bits: u32) -> bool {
    bits < INFINITE || SIGN <= bits < SIGN + INFINITE
}

/// How much the bits of a finite number stand for, in the same unit.
pub open spec fn amount(bits: u32) -> int {
    if bits < SIGN {
        magnitude(bits) as int
    } else {
        -(magnitude((bits - SIGN) as u32) as int)
    }
}

/// How far apart two sizes are.
pub open spec fn apart(a: u32, b: u32) -> int {
    if amount(a) <= amount(b) {
        amount(b) - amount(a)
    } else {
        amount(a) - amount(b)
    }
}

/// The size offered for the one asked for. What is not a finite number above
/// zero gets the smallest.
pub open spec fn snapped(bits: u32) -> u32 {
    if bits >= INFINITE || bits <= 0x4138_0000 {
        ELEVEN
    } else if bits <= 0x4144_0000 {
        TWELVE
    } else if bits <= 0x4154_0000 {
        DEFAULT_MONO_SIZE
    } else if bits <= 0x4170_0000 {
        FOURTEEN
    } else {
        SIXTEEN
    }
}

/// The offered size closest to the one asked for.
pub fn nearest(bits: u32) -> (size: u32)
    ensures
        size == snapped(bits),
{
    if bits >= INFINITE || bits <= 0x4138_0000 {
        ELEVEN
    } else if bits <= 0x4144_0000 {
        TWELVE
    } else if bits <= 0x4154_0000 {
        DEFAULT_MONO_SIZE
    } else if bits <= 0x4170_0000 {
        FOURTEEN
    } else {
        SIXTEEN
    }
}

/// Larger bits stand for a larger number.
proof fn lemma_magnitude_grows(a: u32, b: u32)
    requires
        a < b < INFINITE,
    ensures
        magnitude(a) < magnitude(b),
{
    let ea = (a / 0x80_0000) as nat;
    let eb = (b / 0x80_0000) as nat;
    let fa = (a % 0x80_0000) as nat;
    let fb = (b % 0x80_0000) as nat;
    assert(ea <= eb);
    if ea == eb {
        assert(fa < fb);
        if ea > 0 {
            let p = pow2((ea - 1) as nat);
            lemma_pow2_pos((ea - 1) as nat);
            lemma_mul_strict_inequality(0x80_0000 + fa as int, 0x80_0000 + fb as int, p as int);
        }
    } else {
        let pb = pow2((eb - 1) as nat);
        lemma_pow2_pos((eb - 1) as nat);
        assert(0x80_0000 * pb <= (0x80_0000 + fb) * pb) by {
            lemma_mul_inequality(0x80_0000, 0x80_0000 + fb as int, pb as int);
        }
        if ea == 0 {
            assert(0x80_0000 * pb >= 0x80_0000) by (nonlinear_arith)
                requires
                    pb >= 1,
            ;
        } else {
            let pa = pow2((ea - 1) as nat);
            lemma_pow2_pos((ea - 1) as nat);
            lemma_pow2_unfold(ea);
            if ea < eb - 1 {
                lemma_pow2_strictly_increases(ea, (eb - 1) as nat);
            }
            assert(2 * pa <= pb);
            lemma_mul_strict_inequality(0x80_0000 + fa as int, 0x100_0000, pa as int);
            assert(0x100_0000 * pa <= 0x80_0000 * pb) by (nonlinear_arith)
                requires
                    2 * pa <= pb,
            ;
        }
    }
}

/// The sizes offered, and the points halfway between them, in one unit.
proof fn lemma_ramp(p: nat)
    requires
        p == pow2(129),
    ensures
        magnitude(ELEVEN) == 0xb0_0000 * p,
        magnitude(TWELVE) == 0xc0_0000 * p,
        magnitude(DEFAULT_MONO_SIZE) == 0xc8_0000 * p,
        magnitude(FOURTEEN) == 0xe0_0000 * p,
        magnitude(SIXTEEN) == 0x100_0000 * p,
        magnitude(0x4138_0000) == 0xb8_0000 * p,
        magnitude(0x4144_0000) == 0xc4_0000 * p,
        magnitude(0x4154_0000) == 0xd4_0000 * p,
        magnitude(0x4170_0000) == 0xf0_0000 * p,
{
    lemma_pow2_unfold(130);
    assert(0x80_0000 * (2 * p) == 0x100_0000 * p);
}

/// Any finite size snaps to the nearest of those offered, and to the smaller
/// where two are as near.
pub proof fn a_size_snaps_to_the_nearest(bits: u32, other: u32)
    requires
        is_finite(bits),
        mono_size_list().contains(other),
    ensures
        mono_size_list().contains(snapped(bits)),
        apart(snapped(bits), bits) <= apart(other, bits),
        other < snapped(bits) ==> apart(snapped(bits), bits) < apart(other, bits),
{
    let list = mono_size_list();
    assert(list[0] == ELEVEN && list[1] == TWELVE && list[2] == DEFAULT_MONO_SIZE && list[3]
        == FOURTEEN && list[4] == SIXTEEN);
    let p = pow2(129);
    lemma_ramp(p);
    lemma_pow2_pos(129);
    let cuts = seq![0x4138_0000u32, 0x4144_0000, 0x4154_0000, 0x4170_0000];
    assert forall|i: int| 0 <= i < 4 && bits < SIGN implies (bits <= #[trigger] cuts[i]
        <==> magnitude(bits) <= magnitude(cuts[i])) by {
        if bits < cuts[i] {
            lemma_magnitude_grows(bits, cuts[i]);
        } else if cuts[i] < bits {
            lemma_magnitude_grows(cuts[i], bits);
        }
    }
    assert(cuts[0] == 0x4138_0000u32 && cuts[1] == 0x4144_0000u32 && cuts[2] == 0x4154_0000u32
        && cuts[3] == 0x4170_0000u32);
}

/// The sizes as they are written: half a point shows, a whole number of points
/// has nothing after it.
pub open spec fn size_words() -> Seq<Seq<char>> {
    seq!["11"@, "12"@, "12.5"@, "14"@, "16"@]
}

} // verus!
