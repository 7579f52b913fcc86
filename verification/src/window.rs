//! The pitch window: the grain shape used by analysis and synthesis.
//!
//! The window is a pair of complementary triangular (hat) tapers over a span
//! of two nominal wavelengths.  Taper `a` rises from 0 to its peak over one
//! wavelength and falls back to 0 over the next; taper `b` is its complement.
//! Analysis grains alternate between the two tapers: the grain starting at
//! epoch `k` uses taper `a` when `k` is even and taper `b` when `k` is odd,
//! so that every grain rises from 0, peaks in its middle, and falls back to 0,
//! and adjacent grains' weights sum to a constant.  Weights are integers in
//! `[0, wavelength]`; dividing by the wavelength normalizes them.

use vstd::prelude::*;

use crate::params::{valid_wavelength, MAX_WAVELENGTH, MIN_WAVELENGTH};

verus! {

/// Weight of taper `a` at phase `p` of the window cycle, `0 <= p < 2*l`:
/// a triangle rising from 0 at phase 0 to `l` at phase `l`, then falling
/// back towards 0.
pub open spec fn taper_a(l: int, p: int) -> int {
    if p <= l {
        p
    } else {
        2 * l - p
    }
}

/// Weight of taper `b` at phase `p`: the complement of taper `a`.
pub open spec fn taper_b(l: int, p: int) -> int {
    l - taper_a(l, p)
}

/// Which taper the grain starting at epoch index `k` reads: `a` for even
/// epochs, `b` for odd ones.  This is the polarity flag that alternates each
/// time a grain boundary is crossed.
pub open spec fn grain_uses_taper_a(k: int) -> bool {
    k % 2 == 0
}

/// Taper weights lie in `[0, l]`.
pub proof fn lemma_taper_bounds(l: int, p: int)
    requires
        0 < l,
        0 <= p < 2 * l,
    ensures
        0 <= taper_a(l, p) <= l,
        0 <= taper_b(l, p) <= l,
{
}

/// Complementarity: one wavelength apart, the weights of taper `a` sum to
/// exactly `l`.  This is what makes grains overlap-added one wavelength apart
/// reconstruct the input exactly (no net amplitude modulation).
pub proof fn lemma_taper_complement(l: int, p: int)
    requires
        0 < l,
        0 <= p < l,
    ensures
        taper_a(l, p) + taper_a(l, p + l) == l,
{
}

/// The analysis/synthesis grain shape and nominal period.  Immutable once
/// constructed; the position and polarity cursors live in the analysis stage
/// that advances them.
pub struct PitchWindow {
    /// Nominal wavelength, in samples per pitch period at ratio 1.
    pub wavelength: usize,
}

impl PitchWindow {
    /// The window's nominal wavelength is in the accepted range.
    pub open spec fn wf(&self) -> bool {
        valid_wavelength(self.wavelength as int)
    }

    /// The nominal wavelength, in samples.
    pub open spec fn spec_wavelength(&self) -> int {
        self.wavelength as int
    }

    /// Builds the window for a nominal wavelength (samples per pitch period
    /// at ratio 1).  Returns `None` when the wavelength is out of range.
    pub fn new(wavelength: usize) -> (r: Option<PitchWindow>)
        ensures
            r is Some <==> valid_wavelength(wavelength as int),
            r is Some ==> r->Some_0.wf() && r->Some_0.spec_wavelength() == wavelength,
    {
        if MIN_WAVELENGTH <= wavelength && wavelength <= MAX_WAVELENGTH {
            Some(PitchWindow { wavelength })
        } else {
            None
        }
    }

    /// The nominal wavelength, in samples.
    pub fn wavelength(&self) -> (r: usize)
        ensures
            r == self.spec_wavelength(),
    {
        self.wavelength
    }

    /// Weight of taper `a` at phase `p` of the window cycle.
    pub fn weight_a(&self, p: usize) -> (r: u64)
        requires
            self.wf(),
            p < 2 * self.spec_wavelength(),
        ensures
            r == taper_a(self.spec_wavelength(), p as int),
    {
        if p <= self.wavelength {
            p as u64
        } else {
            (2 * self.wavelength - p) as u64
        }
    }

    /// Weight of taper `b` at phase `p` of the window cycle.
    pub fn weight_b(&self, p: usize) -> (r: u64)
        requires
            self.wf(),
            p < 2 * self.spec_wavelength(),
        ensures
            r == taper_b(self.spec_wavelength(), p as int),
    {
        let wa = self.weight_a(p);
        self.wavelength as u64 - wa
    }
}

} // verus!
