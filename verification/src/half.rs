//! Portable half-float widening: the standard IEEE 754 binary16 to binary32
//! conversion as pure bit manipulation, with its exact numeric meaning.
//!
//! A half-float value is described by an integer scaled so that every finite
//! half is exact: `half_val24` is the value times 2^24.  A single value is
//! likewise described by `single_val149`, the value times 2^149.  Widening a
//! finite half preserves its value exactly, which also makes it monotonic.

use vstd::arithmetic::power2::{
    lemma2_to64, lemma2_to64_rest, lemma_pow2_adds, lemma_pow2_pos, pow2,
};
use vstd::prelude::*;

verus! {

/// Sign bit of a half-float bit pattern: 0 or 1.
pub open spec fn half_sign(h: u16) -> int {
    h as int / 0x8000
}

/// Exponent field of a half-float bit pattern: 0 through 31.
pub open spec fn half_exp(h: u16) -> int {
    (h as int / 0x400) % 0x20
}

/// Fraction field of a half-float bit pattern: 0 through 1023.
pub open spec fn half_frac(h: u16) -> int {
    h as int % 0x400
}

/// Magnitude of a finite half-float, scaled by 2^24 so that it is an
/// integer: subnormals are `frac * 2^-24`, normals `(1024 + frac) *
/// 2^(exp - 25)`.
pub open spec fn half_mag24(h: u16) -> int {
    if half_exp(h) == 0 {
        half_frac(h)
    } else {
        (0x400 + half_frac(h)) * pow2((half_exp(h) - 1) as nat)
    }
}

/// Signed value of a finite half-float, scaled by 2^24.
pub open spec fn half_val24(h: u16) -> int {
    if half_sign(h) == 0 {
        half_mag24(h)
    } else {
        -half_mag24(h)
    }
}

/// Sign bit of a single-float bit pattern: 0 or 1.
pub open spec fn single_sign(x: u32) -> int {
    x as int / 0x8000_0000
}

/// Exponent field of a single-float bit pattern: 0 through 255.
pub open spec fn single_exp(x: u32) -> int {
    (x as int / 0x80_0000) % 0x100
}

/// Fraction field of a single-float bit pattern: 0 through 2^23 - 1.
pub open spec fn single_frac(x: u32) -> int {
    x as int % 0x80_0000
}

/// Magnitude of a finite single-float, scaled by 2^149 so that it is an
/// integer.
pub open spec fn single_mag149(x: u32) -> int {
    if single_exp(x) == 0 {
        single_frac(x)
    } else {
        (0x80_0000 + single_frac(x)) * pow2((single_exp(x) - 1) as nat)
    }
}

/// Signed value of a finite single-float, scaled by 2^149.
pub open spec fn single_val149(x: u32) -> int {
    if single_sign(x) == 0 {
        single_mag149(x)
    } else {
        -single_mag149(x)
    }
}

/// Number of doublings that bring a positive subnormal fraction up to the
/// implicit-one position.
pub open spec fn norm_shift(f: int) -> nat
    recommends
        1 <= f,
    decreases 0x800 - f,
{
    if f >= 0x400 {
        0
    } else if f < 1 {
        0
    } else {
        1 + norm_shift(f * 2)
    }
}

/// The single-float bit pattern a half-float bit pattern widens to:
/// infinities and NaNs keep exponent field 255, zeros map to signed zero,
/// subnormals are renormalized, and normals are rebased from excess-15 to
/// excess-127.
pub open spec fn spec_half_to_single(h: u16) -> u32 {
    let s = half_sign(h);
    let e = half_exp(h);
    let f = half_frac(h);
    if e == 31 {
        (s * 0x8000_0000 + 255 * 0x80_0000 + f * 0x2000) as u32
    } else if e == 0 && f == 0 {
        (s * 0x8000_0000) as u32
    } else if e == 0 {
        (s * 0x8000_0000 + (113 - norm_shift(f)) * 0x80_0000 + (f * pow2(norm_shift(f)) - 0x400)
            * 0x2000) as u32
    } else {
        (s * 0x8000_0000 + (e + 112) * 0x80_0000 + f * 0x2000) as u32
    }
}

/// Field extraction from a composed single-float bit pattern.
proof fn lemma_single_fields(s: int, e: int, f: int)
    requires
        0 <= s < 2,
        0 <= e < 0x100,
        0 <= f < 0x80_0000,
    ensures
        0 <= s * 0x8000_0000 + e * 0x80_0000 + f < 0x1_0000_0000,
        single_sign((s * 0x8000_0000 + e * 0x80_0000 + f) as u32) == s,
        single_exp((s * 0x8000_0000 + e * 0x80_0000 + f) as u32) == e,
        single_frac((s * 0x8000_0000 + e * 0x80_0000 + f) as u32) == f,
{
    let x = s * 0x8000_0000 + e * 0x80_0000 + f;
    assert(0 <= x < 0x1_0000_0000);
    assert(x / 0x8000_0000 == s && (x / 0x80_0000) % 0x100 == e && x % 0x80_0000 == f)
        by (nonlinear_arith)
        requires
            x == s * 0x8000_0000 + e * 0x80_0000 + f,
            0 <= s < 2,
            0 <= e < 0x100,
            0 <= f < 0x80_0000,
    ;
}

/// Bounds of the normalization shift: for a positive subnormal fraction it
/// lands the leading digit exactly in the implicit-one position.
proof fn lemma_norm_shift(f: int)
    requires
        1 <= f < 0x400,
    ensures
        1 <= norm_shift(f) <= 10,
        0x400 <= f * pow2(norm_shift(f)) < 0x800,
    decreases 0x400 - f,
{
    lemma2_to64();
    if f * 2 >= 0x400 {
        assert(norm_shift(f) == 1 + norm_shift(f * 2));
        assert(norm_shift(f * 2) == 0);
        assert(pow2(1) == 2);
        assert(f * pow2(1) == f * 2);
    } else {
        lemma_norm_shift(f * 2);
        let k = norm_shift(f * 2);
        assert(norm_shift(f) == 1 + k);
        lemma_pow2_adds(1, k);
        assert(pow2(1 + k) == 2 * pow2(k));
        assert(f * pow2(1 + k) == (f * 2) * pow2(k)) by (nonlinear_arith)
            requires
                pow2((1 + k) as nat) == 2 * pow2(k),
        ;
        assert(1 + k <= 10) by {
            if k == 10 {
                assert(pow2(10) == 1024);
                assert((f * 2) * pow2(10) < 0x800);
                assert(f * 2 >= 2);
                assert((f * 2) * pow2(10) >= 2 * 1024) by (nonlinear_arith)
                    requires
                        f * 2 >= 2,
                        pow2(10) == 1024,
                ;
            }
        }
    }
}

/// Combines matching signs and magnitudes into the signed value equation.
proof fn lemma_val_from_mag(x: u32, h: u16)
    requires
        single_sign(x) == half_sign(h),
        single_mag149(x) == half_mag24(h) * pow2(125),
    ensures
        single_val149(x) == half_val24(h) * pow2(125),
{
    if half_sign(h) == 0 {
    } else {
        assert((-half_mag24(h)) * pow2(125) == -(half_mag24(h) * pow2(125))) by (nonlinear_arith);
    }
}

/// Widening a finite half-float preserves its exact value: the single's
/// value at scale 2^149 is the half's value at scale 2^24 times 2^125.
pub proof fn lemma_half_to_single_exact(h: u16)
    requires
        half_exp(h) < 31,
    ensures
        single_exp(spec_half_to_single(h)) < 255,
        single_val149(spec_half_to_single(h)) == half_val24(h) * pow2(125),
{
    lemma2_to64();
    lemma2_to64_rest();
    let s = half_sign(h);
    let e = half_exp(h);
    let f = half_frac(h);
    assert(0 <= s < 2 && 0 <= e < 32 && 0 <= f < 0x400) by (nonlinear_arith)
        requires
            s == h as int / 0x8000,
            e == (h as int / 0x400) % 0x20,
            f == h as int % 0x400,
            0 <= (h as int) && (h as int) < 0x1_0000,
    ;
    if e == 0 && f == 0 {
        lemma_single_fields(s, 0, 0);
        let x = spec_half_to_single(h);
        assert(half_mag24(h) == 0);
        assert(single_mag149(x) == 0);
        lemma_val_from_mag(x, h);
    } else if e == 0 {
        lemma_norm_shift(f);
        let k = norm_shift(f);
        let fk = f * pow2(k);
        lemma_single_fields(s, 113 - k, (fk - 0x400) * 0x2000);
        let x = spec_half_to_single(h);
        assert(single_exp(x) == 113 - k);
        assert(single_frac(x) == (fk - 0x400) * 0x2000);
        assert(single_mag149(x) == (0x80_0000 + (fk - 0x400) * 0x2000) * pow2((112 - k) as nat));
        assert(0x80_0000 + (fk - 0x400) * 0x2000 == fk * 0x2000) by (nonlinear_arith);
        lemma_pow2_adds(13, (112 - k) as nat);
        lemma_pow2_adds(k, (125 - k) as nat);
        lemma_pow2_adds(13, (112 - k) as nat);
        assert(single_mag149(x) == fk * 0x2000 * pow2((112 - k) as nat)) by (nonlinear_arith)
            requires
                single_mag149(x) == (0x80_0000 + (fk - 0x400) * 0x2000) * pow2((112 - k) as nat),
                0x80_0000 + (fk - 0x400) * 0x2000 == fk * 0x2000,
        ;
        assert(fk * 0x2000 * pow2((112 - k) as nat) == f * pow2(125)) by (nonlinear_arith)
            requires
                fk == f * pow2(k),
                pow2(13) == 0x2000,
                pow2((13 + 112 - k) as nat) == pow2(13) * pow2((112 - k) as nat),
                pow2((k + 125 - k) as nat) == pow2(k) * pow2((125 - k) as nat),
                pow2((13 + 112 - k) as nat) == pow2((125 - k) as nat),
                1 <= k <= 10,
        ;
        assert(half_mag24(h) == f);
        assert(single_mag149(x) == half_mag24(h) * pow2(125));
        lemma_val_from_mag(x, h);
    } else {
        lemma_single_fields(s, e + 112, f * 0x2000);
        let x = spec_half_to_single(h);
        assert(single_exp(x) == e + 112 && single_exp(x) < 255);
        assert(single_mag149(x) == (0x80_0000 + f * 0x2000) * pow2((e + 111) as nat));
        lemma_pow2_adds((e - 1) as nat, 112);
        lemma_pow2_adds(13, 112);
        assert(0x80_0000 + f * 0x2000 == (0x400 + f) * 0x2000) by (nonlinear_arith);
        assert((0x80_0000 + f * 0x2000) * pow2((e + 111) as nat) == (0x400 + f) * pow2(
            (e - 1) as nat,
        ) * pow2(125)) by (nonlinear_arith)
            requires
                0x80_0000 + f * 0x2000 == (0x400 + f) * 0x2000,
                pow2((e + 111) as nat) == pow2((e - 1) as nat) * pow2(112),
                pow2(13) == 0x2000,
                pow2(125) == pow2(13) * pow2(112),
        ;
        assert(half_mag24(h) == (0x400 + f) * pow2((e - 1) as nat));
        assert(single_mag149(x) == half_mag24(h) * pow2(125));
        lemma_val_from_mag(x, h);
    }
}

/// Widening maps the all-zero half bit pattern to the all-zero single bit
/// pattern, whose value is exactly zero.
pub proof fn lemma_half_to_single_zero()
    ensures
        spec_half_to_single(0u16) == 0u32,
        single_val149(0u32) == 0,
        half_val24(0u16) == 0,
{
}

/// Widening finite halves is monotonic with respect to their numeric order,
/// because it is value-exact.
pub proof fn lemma_half_to_single_monotonic(a: u16, b: u16)
    requires
        half_exp(a) < 31,
        half_exp(b) < 31,
        half_val24(a) <= half_val24(b),
    ensures
        single_val149(spec_half_to_single(a)) <= single_val149(spec_half_to_single(b)),
{
    lemma_half_to_single_exact(a);
    lemma_half_to_single_exact(b);
    lemma_pow2_pos(125);
    assert(half_val24(a) * pow2(125) <= half_val24(b) * pow2(125)) by (nonlinear_arith)
        requires
            half_val24(a) <= half_val24(b),
            pow2(125) > 0,
    ;
}

/// Widens a half-float bit pattern to the single-float bit pattern with the
/// same meaning: value-exact for finite halves, exponent field 255 kept for
/// infinities and NaNs, fraction moved to the high fraction bits.
pub fn half_to_single_bits(h: u16) -> (r: u32)
    ensures
        r == spec_half_to_single(h),
{
    let s: u32 = (h / 0x8000) as u32;
    let e: u32 = ((h / 0x400) % 0x20) as u32;
    let f: u32 = (h % 0x400) as u32;
    if e == 31 {
        s * 0x8000_0000 + 255 * 0x80_0000 + f * 0x2000
    } else if e == 0 && f == 0 {
        s * 0x8000_0000
    } else if e == 0 {
        let mut e2: u32 = 113;
        let mut f2: u32 = f;
        proof {
            vstd::arithmetic::power2::lemma2_to64();
            lemma_norm_shift(f as int);
            assert(pow2(0) == 1);
            assert((f as int) * pow2(0) == f as int) by (nonlinear_arith)
                requires
                    pow2(0) == 1,
            ;
        }
        while f2 < 0x400
            invariant
                1 <= (f as int) && (f as int) < 0x400,
                1 <= f2 < 0x800,
                103 <= e2 <= 113,
                f2 == (f as int) * pow2((113 - e2) as nat),
                norm_shift(f2 as int) + (113 - e2) == norm_shift(f as int),
                norm_shift(f as int) <= 10,
            decreases 0x800 - f2,
        {
            proof {
                lemma2_to64();
                lemma_pow2_adds((113 - e2) as nat, 1);
                assert(f as int * pow2((113 - e2 + 1) as nat) == (f as int * pow2(
                    (113 - e2) as nat,
                )) * 2) by (nonlinear_arith)
                    requires
                        pow2((113 - e2 + 1) as nat) == pow2((113 - e2) as nat) * 2,
                ;
                assert(norm_shift(f2 as int) == 1 + norm_shift(f2 as int * 2));
            }
            f2 = f2 * 2;
            e2 = e2 - 1;
        }
        proof {
            assert(norm_shift(f2 as int) == 0);
            assert(113 - e2 == norm_shift(f as int));
        }
        s * 0x8000_0000 + e2 * 0x80_0000 + (f2 - 0x400) * 0x2000
    } else {
        s * 0x8000_0000 + (e + 112) * 0x80_0000 + f * 0x2000
    }
}

} // verus!
