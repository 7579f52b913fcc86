//! The pitch ratio and the target synthesis wavelength derived from it.
//!
//! The ratio is a positive Q16.16 fixed-point value: `RATIO_ONE` (65536)
//! leaves the pitch unchanged, larger values raise it (shorter target
//! wavelength), smaller values lower it.  The target wavelength is the exact
//! rational `nominal * 2^32 / ratio` in Q16.16 sample units; the executable
//! pipeline uses its floor.

use vstd::prelude::*;

use crate::params::valid_wavelength;

verus! {

/// The Q16.16 encoding of ratio 1.0.
pub const RATIO_ONE: u32 = 0x1_0000;

/// Smallest accepted ratio encoding: a ratio of 1/16.
pub const RATIO_MIN: u32 = 0x1000;

/// Largest accepted ratio encoding: a ratio of 16.
pub const RATIO_MAX: u32 = 0x10_0000;

/// A representable pitch ratio: positive and within the engine's range.
pub open spec fn valid_ratio(r: int) -> bool {
    RATIO_MIN <= r <= RATIO_MAX
}

/// Numerator of the target wavelength: the target, in Q16.16 sample units,
/// is the rational `target_num(l) / r` for nominal wavelength `l` and ratio
/// encoding `r`.
pub open spec fn target_num(l: int) -> int {
    l * 0x1_0000_0000
}

/// Strict order on two rationals `an/ad < bn/bd` with positive denominators.
pub open spec fn frac_lt(an: int, ad: int, bn: int, bd: int) -> bool {
    an * bd < bn * ad
}

/// The floor of the target wavelength in Q16.16 units, which is what the
/// synthesis stage runs on.
pub open spec fn target_q16_spec(l: int, r: int) -> int {
    target_num(l) / r
}

/// Monotonicity of the pitch shift: for a fixed nominal wavelength, a
/// strictly larger pitch ratio yields a strictly shorter target synthesis
/// wavelength (`target = nominal / ratio`, as exact rationals).
pub proof fn lemma_target_monotone(l: int, r1: int, r2: int)
    requires
        0 < l,
        0 < r1 < r2,
    ensures
        frac_lt(target_num(l), r2, target_num(l), r1),
{
    assert(target_num(l) * r1 < target_num(l) * r2) by (nonlinear_arith)
        requires
            0 < l,
            0 < r1 < r2,
            target_num(l) == l * 0x1_0000_0000,
    {
    }
}

/// At ratio 1.0 the target wavelength equals the nominal wavelength: the
/// exact rational `target_num(l) / RATIO_ONE` is `l` in Q16.16 units.
pub proof fn lemma_target_at_unit_ratio(l: int)
    requires
        0 < l,
    ensures
        target_q16_spec(l, RATIO_ONE as int) == l * 0x1_0000,
        target_num(l) == (l * 0x1_0000) * (RATIO_ONE as int),
{
    assert(l * 0x1_0000_0000 == (l * 0x1_0000) * 0x1_0000) by (nonlinear_arith);
    vstd::arithmetic::div_mod::lemma_div_multiples_vanish(l * 0x1_0000, 0x1_0000);
}

/// Bounds of the floored target wavelength over the accepted parameter
/// ranges; the synthesis stage relies on them for overflow freedom.
pub proof fn lemma_target_q16_bounds(l: int, r: int)
    requires
        valid_wavelength(l),
        valid_ratio(r),
    ensures
        l * 0x1000 <= target_q16_spec(l, r) <= l * 0x10_0000,
        target_q16_spec(l, r) <= 0x1_0000_0000_0000,
{
    let n = target_num(l);
    assert(n == l * 0x1_0000_0000);
    assert((l * 0x1000) * r <= l * 0x1_0000_0000) by (nonlinear_arith)
        requires 0 < l && 0 < r <= 0x10_0000;
    assert(l * 0x1_0000_0000 <= (l * 0x10_0000) * r) by (nonlinear_arith)
        requires 0 < l && 0x1000 <= r;
    vstd::arithmetic::div_mod::lemma_div_is_ordered((l * 0x1000) * r, n, r);
    vstd::arithmetic::div_mod::lemma_div_is_ordered(n, (l * 0x10_0000) * r, r);
    vstd::arithmetic::div_mod::lemma_div_multiples_vanish(l * 0x1000, r);
    vstd::arithmetic::div_mod::lemma_div_multiples_vanish(l * 0x10_0000, r);
    assert(l * 0x10_0000 <= 0x1_0000_0000_0000) by (nonlinear_arith)
        requires l <= 4096;
}

/// Checks that a ratio encoding is representable.
pub fn ratio_is_valid(r: u32) -> (ok: bool)
    ensures
        ok == valid_ratio(r as int),
{
    RATIO_MIN <= r && r <= RATIO_MAX
}

/// The floored target wavelength in Q16.16 units for a nominal wavelength
/// and a ratio encoding.
pub fn target_q16(l: usize, r: u32) -> (t: u64)
    requires
        valid_wavelength(l as int),
        valid_ratio(r as int),
    ensures
        t == target_q16_spec(l as int, r as int),
        l * 0x1000 <= t <= l * 0x10_0000,
{
    proof {
        lemma_target_q16_bounds(l as int, r as int);
        assert(target_num(l as int) >= 0) by (nonlinear_arith)
            requires l as int >= 0;
        vstd::arithmetic::div_mod::lemma_div_pos_is_pos(target_num(l as int), r as int);
    }
    let num: u64 = (l as u64) * 0x1_0000_0000;
    num / (r as u64)
}

} // verus!
