//! The analysis stage: pitch-synchronous accumulation of input samples.
//!
//! Samples arrive one at a time and are buffered, weighted by the two
//! complementary window tapers, in preallocated rings holding the most recent
//! four wavelengths of history.  Analysis epochs are assumed periodic at the
//! nominal wavelength (a deliberate simplification trading pitch-detection
//! accuracy for real-time determinism): the grain with epoch index `k` covers
//! input positions `[k*l, k*l + 2*l)` and reads taper `a` when `k` is even,
//! taper `b` when it is odd, so every grain tapers from 0 up to its middle
//! and back.  The stage never drops or reorders samples and never allocates
//! once constructed.

use vstd::prelude::*;

use crate::params::{valid_amplitude, valid_wavelength, MAX_STREAM_LEN};
use crate::window::{taper_a, taper_b, PitchWindow};

verus! {

/// The taper-weighted value of input sample `m`, as the grain readers see
/// it: the sample times the phase-`m % 2l` weight of the chosen taper.
pub open spec fn weighted_sample(hist: Seq<int>, l: int, m: int, use_a: bool) -> int {
    hist[m] * (if use_a {
        taper_a(l, m % (2 * l))
    } else {
        taper_b(l, m % (2 * l))
    })
}

/// Two positions closer than `n` apart occupy distinct ring slots.
proof fn lemma_mod_distinct(a: int, b: int, n: int)
    requires
        0 < n,
        0 <= a < b,
        b < a + n,
    ensures
        a % n != b % n,
{
    let d = b - a;
    vstd::arithmetic::div_mod::lemma_mod_bound(a, n);
    vstd::arithmetic::div_mod::lemma_mod_adds(a, d, n);
    assert(d % n == d) by {
        vstd::arithmetic::div_mod::lemma_small_mod(d as nat, n as nat);
    }
    assert((a + d) % n == (a % n + d) % n) by {
        vstd::arithmetic::div_mod::lemma_fundamental_div_mod(a, n);
        assert(n * (a / n) + (a % n + d) == a + d);
        vstd::arithmetic::div_mod::lemma_mod_multiples_vanish(a / n, a % n + d, n);
    }
    if a % n + d < n {
        assert((a % n + d) % n == a % n + d) by {
            vstd::arithmetic::div_mod::lemma_small_mod((a % n + d) as nat, n as nat);
        }
    } else {
        assert((a % n + d) % n == a % n + d - n) by {
            assert(n * 1 + (a % n + d - n) == a % n + d);
            vstd::arithmetic::div_mod::lemma_mod_multiples_vanish(1, a % n + d - n, n);
            vstd::arithmetic::div_mod::lemma_small_mod((a % n + d - n) as nat, n as nat);
        }
    }
}

/// The analysis accumulator.  It owns the full abstract history of pushed
/// samples (as ghost state) and retains the weighted values of the most
/// recent four wavelengths in preallocated rings.
pub struct AnalysisStage {
    /// Nominal wavelength, in samples; equals the window's.
    pub l: usize,
    /// Ring of taper-`a`-weighted samples, indexed by position mod `4*l`.
    pub ring_a: Vec<i64>,
    /// Ring of taper-`b`-weighted samples, indexed by position mod `4*l`.
    pub ring_b: Vec<i64>,
    /// Number of samples pushed so far.
    pub count: u64,
    /// The full sequence of samples ever pushed.
    pub hist: Ghost<Seq<int>>,
}

impl AnalysisStage {
    /// Well-formedness: the rings span four wavelengths, the ghost history
    /// matches the count, amplitudes are bounded, and every retained slot
    /// holds the weighted value of its sample.
    pub open spec fn wf(&self) -> bool {
        &&& valid_wavelength(self.l as int)
        &&& self.ring_a.len() == 4 * self.l
        &&& self.ring_b.len() == 4 * self.l
        &&& self.hist@.len() == self.count
        &&& self.count <= MAX_STREAM_LEN
        &&& forall|m: int| 0 <= m < self.count ==> valid_amplitude(#[trigger] self.hist@[m])
        &&& forall|m: int|
            0 <= m < self.count && m + 4 * self.l >= self.count ==> {
                &&& #[trigger] self.ring_a@[m % (4 * self.l as int)]
                    == weighted_sample(self.hist@, self.l as int, m, true)
                &&& self.ring_b@[m % (4 * self.l as int)]
                    == weighted_sample(self.hist@, self.l as int, m, false)
            }
    }

    /// Creates an empty analysis stage for the given window.
    pub fn new(w: &PitchWindow) -> (r: AnalysisStage)
        requires
            w.wf(),
        ensures
            r.wf(),
            r.l == w.spec_wavelength(),
            r.count == 0,
            r.hist@ =~= Seq::<int>::empty(),
    {
        let l = w.wavelength();
        let mut ring_a: Vec<i64> = Vec::new();
        let mut ring_b: Vec<i64> = Vec::new();
        let mut i: usize = 0;
        while i < 4 * l
            invariant
                i <= 4 * l,
                ring_a.len() == i,
                ring_b.len() == i,
                l <= 4096,
            decreases 4 * l - i,
        {
            ring_a.push(0);
            ring_b.push(0);
            i = i + 1;
        }
        AnalysisStage { l, ring_a, ring_b, count: 0, hist: Ghost(Seq::empty()) }
    }

    /// Consumes one input sample: appends it to the history and stores its
    /// two weighted values in the rings, advancing the window cursor that
    /// `count` embodies.  Never allocates.
    pub fn push_sample(&mut self, x: i32, w: &PitchWindow) -> (r: ())
        requires
            old(self).wf(),
            w.wf(),
            w.spec_wavelength() == old(self).l,
            valid_amplitude(x as int),
            old(self).count < MAX_STREAM_LEN,
        ensures
            final(self).wf(),
            final(self).l == old(self).l,
            final(self).count == old(self).count + 1,
            final(self).hist@ =~= old(self).hist@.push(x as int),
    {
        let l = self.l;
        let ghost li = l as int;
        let phase: usize = (self.count % (2 * l as u64)) as usize;
        proof {
            vstd::arithmetic::div_mod::lemma_mod_bound(self.count as int, 2 * li);
        }
        let wa: u64 = w.weight_a(phase);
        let wb: u64 = w.weight_b(phase);
        proof {
            crate::window::lemma_taper_bounds(li, phase as int);
            assert((x as i64) * (wa as i64) <= 0x100_0000i64 * 0x1000) by (nonlinear_arith)
                requires -0x100_0000 <= x <= 0x100_0000 && 0 <= wa <= 0x1000;
            assert((x as i64) * (wa as i64) >= -0x100_0000i64 * 0x1000) by (nonlinear_arith)
                requires -0x100_0000 <= x <= 0x100_0000 && 0 <= wa <= 0x1000;
            assert((x as i64) * (wb as i64) <= 0x100_0000i64 * 0x1000) by (nonlinear_arith)
                requires -0x100_0000 <= x <= 0x100_0000 && 0 <= wb <= 0x1000;
            assert((x as i64) * (wb as i64) >= -0x100_0000i64 * 0x1000) by (nonlinear_arith)
                requires -0x100_0000 <= x <= 0x100_0000 && 0 <= wb <= 0x1000;
        }
        let av: i64 = (x as i64) * (wa as i64);
        let bv: i64 = (x as i64) * (wb as i64);
        let idx: usize = (self.count % (4 * l as u64)) as usize;
        proof {
            vstd::arithmetic::div_mod::lemma_mod_bound(self.count as int, 4 * li);
        }
        self.ring_a.set(idx, av);
        self.ring_b.set(idx, bv);
        proof {
            self.hist@ = self.hist@.push(x as int);
        }
        self.count = self.count + 1;
        proof {
            let c = self.count as int - 1;
            assert forall|m: int|
                0 <= m < self.count && m + 4 * li >= self.count implies {
                    &&& #[trigger] self.ring_a@[m % (4 * li)]
                        == weighted_sample(self.hist@, li, m, true)
                    &&& self.ring_b@[m % (4 * li)]
                        == weighted_sample(self.hist@, li, m, false)
                } by {
                if m < c {
                    lemma_mod_distinct(m, c, 4 * li);
                    assert(old(self).ring_a@[m % (4 * li)]
                        == weighted_sample(old(self).hist@, li, m, true));
                    assert(old(self).ring_b@[m % (4 * li)]
                        == weighted_sample(old(self).hist@, li, m, false));
                    assert(self.hist@[m] == old(self).hist@[m]);
                } else {
                    assert(m == c);
                    assert(self.hist@[m] == x as int);
                    assert(m % (4 * li) == idx);
                    assert(m % (2 * li) == phase);
                }
            }
        }
    }

    /// The taper-weighted value of input position `m`, for the grain readers:
    /// taper `a` or `b` as requested.  Only the most recent four wavelengths
    /// are retained.
    pub fn weighted_at(&self, m: u64, use_a: bool) -> (v: i64)
        requires
            self.wf(),
            m < self.count,
            m + 4 * self.l >= self.count,
        ensures
            v == weighted_sample(self.hist@, self.l as int, m as int, use_a),
    {
        proof {
            vstd::arithmetic::div_mod::lemma_mod_bound(m as int, 4 * self.l as int);
        }
        let idx: usize = (m % (4 * self.l as u64)) as usize;
        proof {
            let li = self.l as int;
            assert(idx as int == (m as int) % (4 * li));
            assert(self.ring_a@[(m as int) % (4 * li)]
                == weighted_sample(self.hist@, li, m as int, true));
            assert(self.ring_b@[(m as int) % (4 * li)]
                == weighted_sample(self.hist@, li, m as int, false));
        }
        if use_a {
            self.ring_a[idx]
        } else {
            self.ring_b[idx]
        }
    }
}

} // verus!
