//! The synthesis stage: pitch-synchronous overlap-add resynthesis.
//!
//! The stage emits exactly one output sample per input sample consumed, after
//! a fixed warm-up delay of three wavelengths of silence.  Past the delay it
//! runs a synthesis clock `s` at the input rate and keeps a set of *active
//! grains*: readers into the analysis stage's weighted history.  Every
//! `target wavelength` clock steps (a Q16.16 countdown, so fractional epoch
//! positions carry across calls) it launches a new grain at the analysis
//! epoch nearest the clock — packing grains closer than the nominal
//! wavelength raises the pitch, spreading them lowers it, while each grain's
//! content still advances at the input rate, which is what shifts the
//! fundamental without changing duration.  Each output sample is the sum of
//! all active grains' current weighted values, normalized by the wavelength
//! and saturated to the 32-bit sample range.  At most one grain launches per
//! step, every grain lives for exactly two wavelengths of steps, and all
//! grain reads stay within the four wavelengths of history the analysis
//! stage retains, so the stage never blocks and never allocates per sample.

use vstd::prelude::*;

use crate::analysis::{weighted_sample, AnalysisStage};
use crate::params::{valid_wavelength, MAX_STREAM_LEN};
use crate::window::{taper_a, taper_b};

verus! {

/// One active grain: a reader over the weighted history.  `read` is the next
/// input position it consumes, `end` the position one past its last, and
/// `use_a` which taper stream it reads.
#[derive(Clone, Copy, PartialEq, Eq, Structural)]
pub struct Grain {
    /// Next weighted-history position this grain reads.
    pub read: u64,
    /// One past the last position this grain will read.
    pub end: u64,
    /// True when the grain reads taper stream `a` (even epochs).
    pub use_a: bool,
}

/// Steps this grain survives after the current one.
pub open spec fn grain_gap(g: Grain) -> int {
    g.end - g.read
}

/// The analysis epoch nearest synthesis clock `s`: `round(s / l)`.
pub open spec fn nearest_epoch(s: int, l: int) -> int {
    (2 * s + l) / (2 * l)
}

/// The grain launched at synthesis clock `s`: it reads two wavelengths of
/// weighted history starting at its epoch, from the taper stream that rises
/// from zero there.
pub open spec fn launched_grain(s: int, l: int) -> Grain {
    let k = nearest_epoch(s, l);
    Grain {
        read: (k * l) as u64,
        end: (k * l + 2 * l) as u64,
        use_a: k % 2 == 0,
    }
}

/// The sum of the active grains' current weighted values.
pub open spec fn grains_sum(hist: Seq<int>, l: int, gs: Seq<Grain>) -> int
    decreases gs.len(),
{
    if gs.len() == 0 {
        0
    } else {
        weighted_sample(hist, l, gs[0].read as int, gs[0].use_a)
            + grains_sum(hist, l, gs.skip(1))
    }
}

/// A grain with its reader advanced one step.
pub open spec fn step_grain(g: Grain) -> Grain {
    Grain { read: (g.read + 1) as u64, end: g.end, use_a: g.use_a }
}

/// All grains advanced one step.
pub open spec fn stepped_grains(gs: Seq<Grain>) -> Seq<Grain> {
    gs.map_values(|g: Grain| step_grain(g))
}

/// All grains advanced one step, with a finished front grain retired.
pub open spec fn advanced(gs: Seq<Grain>) -> Seq<Grain> {
    let st = stepped_grains(gs);
    if st.len() > 0 && st[0].read == st[0].end {
        st.skip(1)
    } else {
        st
    }
}

/// The active grains after the launch phase of a step at clock `s`: a new
/// grain is launched exactly when the countdown has run out.
pub open spec fn launch_phase(gs: Seq<Grain>, countdown: int, s: int, l: int) -> Seq<Grain> {
    if countdown <= 0 {
        gs.push(launched_grain(s, l))
    } else {
        gs
    }
}

/// Integer division by the wavelength, truncating toward zero, as the
/// normalization of a grain sum.
pub open spec fn scale_down(sum: int, l: int) -> int {
    if sum >= 0 {
        sum / l
    } else {
        -((-sum) / l)
    }
}

/// Saturation to the 32-bit sample range.
pub open spec fn clamp32(v: int) -> int {
    if v > i32::MAX {
        i32::MAX as int
    } else if v < i32::MIN {
        i32::MIN as int
    } else {
        v
    }
}

/// Appending a grain adds its weighted value to the sum.
proof fn lemma_grains_sum_push(hist: Seq<int>, l: int, gs: Seq<Grain>, g: Grain)
    ensures
        grains_sum(hist, l, gs.push(g)) == grains_sum(hist, l, gs)
            + weighted_sample(hist, l, g.read as int, g.use_a),
    decreases gs.len(),
{
    let pushed = gs.push(g);
    assert(pushed.len() == gs.len() + 1);
    if gs.len() == 0 {
        assert(pushed.skip(1) =~= Seq::<Grain>::empty());
        assert(pushed[0] == g);
        assert(grains_sum(hist, l, pushed)
            == weighted_sample(hist, l, pushed[0].read as int, pushed[0].use_a)
                + grains_sum(hist, l, pushed.skip(1)));
        assert(grains_sum(hist, l, pushed.skip(1)) == 0);
        assert(grains_sum(hist, l, gs) == 0);
    } else {
        assert(pushed.skip(1) =~= gs.skip(1).push(g));
        lemma_grains_sum_push(hist, l, gs.skip(1), g);
        assert(pushed[0] == gs[0]);
        assert(grains_sum(hist, l, pushed)
            == weighted_sample(hist, l, pushed[0].read as int, pushed[0].use_a)
                + grains_sum(hist, l, pushed.skip(1)));
        assert(grains_sum(hist, l, gs)
            == weighted_sample(hist, l, gs[0].read as int, gs[0].use_a)
                + grains_sum(hist, l, gs.skip(1)));
    }
}

/// Lossless reconstruction at unit pitch ratio, for one output sample: when
/// clock `s` is covered by the two grains the unit-ratio schedule keeps
/// active past the fade-in — the grain from epoch `s / l` and the one before
/// it, both reading position `s` — their complementary taper weights sum to
/// the wavelength, so their overlap-add reproduces the input sample at `s`
/// exactly.  The reconstruction has no inherent tolerance in this integer
/// pipeline.
pub proof fn lemma_unit_ratio_reconstruction(hist: Seq<int>, l: int, s: int)
    requires
        valid_wavelength(l),
        l <= s < hist.len(),
        s < MAX_STREAM_LEN,
        crate::params::valid_amplitude(hist[s]),
    ensures
        ({
            let q = s / l;
            let older = Grain {
                read: s as u64,
                end: (q * l + l) as u64,
                use_a: (q - 1) % 2 == 0,
            };
            let newer = Grain {
                read: s as u64,
                end: (q * l + 2 * l) as u64,
                use_a: q % 2 == 0,
            };
            clamp32(scale_down(grains_sum(hist, l, seq![older, newer]), l)) == hist[s]
        }),
{
    let q = s / l;
    let d = s % l;
    vstd::arithmetic::div_mod::lemma_fundamental_div_mod(s, l);
    vstd::arithmetic::div_mod::lemma_mod_bound(s, l);
    let older = Grain { read: s as u64, end: (q * l + l) as u64, use_a: (q - 1) % 2 == 0 };
    let newer = Grain { read: s as u64, end: (q * l + 2 * l) as u64, use_a: q % 2 == 0 };
    let gs = seq![older, newer];

    // The phase of position `s` within the doubled window cycle.
    let p = s % (2 * l);
    vstd::arithmetic::div_mod::lemma_mod_bound(s, 2 * l);
    if q % 2 == 0 {
        // `s == q*l + d` with an even epoch: the phase is `d`.
        assert(p == d) by {
            assert(s == (2 * l) * (q / 2) + d) by (nonlinear_arith)
                requires s == q * l + d && q % 2 == 0;
            vstd::arithmetic::div_mod::lemma_mod_multiples_vanish(q / 2, d, 2 * l);
            vstd::arithmetic::div_mod::lemma_small_mod(d as nat, (2 * l) as nat);
        }
        assert(taper_a(l, p) == d);
        assert(taper_b(l, p) == l - d);
        assert((q - 1) % 2 != 0);
    } else {
        // An odd epoch: the phase is `l + d`.
        assert(p == l + d) by {
            assert(s == (2 * l) * ((q - 1) / 2) + (l + d)) by (nonlinear_arith)
                requires s == q * l + d && q % 2 == 1;
            vstd::arithmetic::div_mod::lemma_mod_multiples_vanish((q - 1) / 2, l + d, 2 * l);
            vstd::arithmetic::div_mod::lemma_small_mod((l + d) as nat, (2 * l) as nat);
        }
        assert(taper_a(l, p) == l - d);
        assert(taper_b(l, p) == d);
        assert((q - 1) % 2 == 0);
    }
    // Either way the newer grain carries weight `d` and the older one
    // carries `l - d`: the complementary halves of one wavelength.
    assert(older.read as int == s);
    assert(newer.read as int == s);
    assert(weighted_sample(hist, l, s, newer.use_a) == hist[s] * d);
    assert(weighted_sample(hist, l, s, older.use_a) == hist[s] * (l - d));
    assert(gs =~= Seq::<Grain>::empty().push(older).push(newer));
    lemma_grains_sum_push(hist, l, Seq::<Grain>::empty().push(older), newer);
    lemma_grains_sum_push(hist, l, Seq::<Grain>::empty(), older);
    assert(grains_sum(hist, l, Seq::<Grain>::empty()) == 0);
    assert(grains_sum(hist, l, gs) == hist[s] * (l - d) + hist[s] * d);
    assert(hist[s] * (l - d) + hist[s] * d == hist[s] * l) by (nonlinear_arith);
    if hist[s] >= 0 {
        vstd::arithmetic::div_mod::lemma_div_multiples_vanish(hist[s], l);
        assert(hist[s] * l >= 0) by (nonlinear_arith)
            requires hist[s] >= 0 && l > 0;
    } else {
        assert(-(hist[s] * l) == (-hist[s]) * l) by (nonlinear_arith);
        assert(hist[s] * l < 0) by (nonlinear_arith)
            requires hist[s] < 0 && l > 0;
        vstd::arithmetic::div_mod::lemma_div_multiples_vanish(-hist[s], l);
    }
    assert(scale_down(hist[s] * l, l) == hist[s]);
}

/// The overlap-add synthesis accumulator.
pub struct SynthesisStage {
    /// Nominal wavelength, in samples; equals the analysis stage's.
    pub l: usize,
    /// Target output pitch period, in Q16.16 sample units (floored).
    pub target_q16: u64,
    /// Q16.16 countdown to the next grain launch; a launch happens when it
    /// reaches zero or below, and the residual phase carries across calls.
    pub countdown_q16: i64,
    /// Number of output samples emitted so far.
    pub emitted: u64,
    /// The grains currently being overlap-added, oldest first.
    pub active: Vec<Grain>,
}

impl SynthesisStage {
    /// The warm-up delay, in samples, before the synthesis clock starts.
    pub open spec fn spec_delay(&self) -> int {
        3 * self.l
    }

    /// Well-formedness between steps.  Grain readers stay strictly inside
    /// their two-wavelength span, never outrun the `emitted` (== consumed)
    /// sample count, and stay within the four wavelengths of history the
    /// analysis stage retains; later-launched grains have strictly larger
    /// remaining lifetimes, which bounds how many can be active at once.
    pub open spec fn wf(&self) -> bool {
        &&& valid_wavelength(self.l as int)
        &&& (self.l as int) * 0x1000 <= self.target_q16 <= (self.l as int) * 0x10_0000
        &&& self.emitted <= MAX_STREAM_LEN
        &&& self.countdown_q16 <= self.target_q16
        &&& -0x1_0000 * (self.emitted as int + 1) <= self.countdown_q16
        &&& forall|i: int| 0 <= i < self.active.len() ==> {
            &&& 1 <= grain_gap(#[trigger] self.active@[i]) <= 2 * self.l - 1
            &&& self.active@[i].end <= self.emitted
            &&& 2 * self.active@[i].read + 7 * self.l + 1 >= 2 * self.emitted
        }
        &&& forall|i: int, j: int| 0 <= i < j < self.active.len() ==>
            grain_gap(#[trigger] self.active@[i]) + (j - i)
                <= grain_gap(#[trigger] self.active@[j])
    }

    /// Creates the stage for a nominal wavelength, with the target period at
    /// the nominal wavelength (ratio 1) and the first launch due at once.
    pub fn new(l: usize) -> (r: SynthesisStage)
        requires
            valid_wavelength(l as int),
        ensures
            r.wf(),
            r.l == l,
            r.emitted == 0,
            r.active@ =~= Seq::<Grain>::empty(),
            r.countdown_q16 == 0,
            r.target_q16 == (l as int) * 0x1_0000,
    {
        proof {
            assert((l as int) * 0x1000 <= (l as int) * 0x1_0000 <= (l as int) * 0x10_0000)
                by (nonlinear_arith)
                requires 2 <= l as int;
        }
        SynthesisStage {
            l,
            target_q16: (l as u64) * 0x1_0000,
            countdown_q16: 0,
            emitted: 0,
            active: Vec::new(),
        }
    }

    /// Updates the target output pitch period.  Takes effect on the next
    /// sample produced; if the new period is shorter than the residual
    /// countdown, the next launch is pulled forward to the new period.
    pub fn set_wavelength(&mut self, t_q16: u64) -> (r: ())
        requires
            old(self).wf(),
            (old(self).l as int) * 0x1000 <= t_q16 <= (old(self).l as int) * 0x10_0000,
        ensures
            final(self).wf(),
            final(self).target_q16 == t_q16,
            final(self).countdown_q16
                == vstd::math::min(old(self).countdown_q16 as int, t_q16 as int),
            final(self).l == old(self).l,
            final(self).emitted == old(self).emitted,
            final(self).active == old(self).active,
    {
        proof {
            let li = self.l as int;
            assert(li * 0x10_0000 <= 0x1_0000_0000_0000) by (nonlinear_arith)
                requires li <= 4096;
        }
        self.target_q16 = t_q16;
        if self.countdown_q16 > t_q16 as i64 {
            self.countdown_q16 = t_q16 as i64;
        }
    }

    /// Produces the next output sample from the analysis history.  Called
    /// exactly once per input sample, right after the analysis stage consumed
    /// it.  During the first three wavelengths it emits silence; after that
    /// it launches a grain whenever the countdown has run out, sums the
    /// active grains, advances them, and retires the finished one.
    #[verifier::rlimit(100)]
    pub fn tick(&mut self, a: &AnalysisStage) -> (y: i32)
        requires
            old(self).wf(),
            a.wf(),
            a.l == old(self).l,
            a.count == old(self).emitted + 1,
            a.count <= MAX_STREAM_LEN,
        ensures
            final(self).wf(),
            final(self).l == old(self).l,
            final(self).target_q16 == old(self).target_q16,
            final(self).emitted == old(self).emitted + 1,
            old(self).emitted < old(self).spec_delay() ==> {
                &&& y == 0
                &&& final(self).active == old(self).active
                &&& final(self).countdown_q16 == old(self).countdown_q16
            },
            old(self).emitted >= old(self).spec_delay() ==> {
                let s = old(self).emitted - old(self).spec_delay();
                let li = old(self).l as int;
                let live = launch_phase(old(self).active@, old(self).countdown_q16 as int, s, li);
                &&& y == clamp32(scale_down(grains_sum(a.hist@, li, live), li))
                &&& final(self).active@ =~= advanced(live)
                &&& final(self).countdown_q16 == (if old(self).countdown_q16 <= 0 {
                    old(self).countdown_q16 + old(self).target_q16
                } else {
                    old(self).countdown_q16 as int
                }) - 0x1_0000
            },
    {
        let l = self.l;
        let ghost li = l as int;
        let delay: u64 = 3 * (l as u64);
        if self.emitted < delay {
            self.emitted = self.emitted + 1;
            return 0;
        }
        let s: u64 = self.emitted - delay;
        let ghost si = s as int;
        let ghost n = a.count as int;

        // Launch phase: start a new grain at the epoch nearest the clock.
        if self.countdown_q16 <= 0 {
            proof {
                vstd::arithmetic::div_mod::lemma_fundamental_div_mod(2 * si + li, 2 * li);
                vstd::arithmetic::div_mod::lemma_mod_bound(2 * si + li, 2 * li);
                vstd::arithmetic::div_mod::lemma_div_pos_is_pos(2 * si + li, 2 * li);
                let ki = nearest_epoch(si, li);
                assert(2 * li * ki == 2 * (ki * li)) by (nonlinear_arith);
                assert(2 * (ki * li) <= 2 * si + li < 2 * (ki * li) + 2 * li);
                assert(ki * li >= 0) by (nonlinear_arith)
                    requires ki >= 0 && li > 0;
            }
            let k: u64 = (2 * s + l as u64) / (2 * l as u64);
            let read: u64 = k * (l as u64);
            let g = Grain { read, end: read + 2 * (l as u64), use_a: k % 2 == 0 };
            proof {
                assert(g == launched_grain(si, li));
                // Appending preserves the lifetime ordering: every earlier
                // grain's remaining lifetime plus its distance to the new
                // grain stays within the new grain's full span.
                assert forall|i: int| 0 <= i < self.active.len() implies
                    grain_gap(#[trigger] self.active@[i]) + (self.active@.len() - i)
                        <= 2 * li by {
                    if i < self.active.len() - 1 {
                        assert(grain_gap(self.active@[i])
                            + (self.active@.len() - 1 - i)
                            <= grain_gap(self.active@[self.active@.len() - 1]));
                    }
                }
            }
            self.active.push(g);
            self.countdown_q16 = self.countdown_q16 + self.target_q16 as i64;
        }
        proof {
            assert(self.active@ =~= launch_phase(old(self).active@,
                old(self).countdown_q16 as int, si, li));
            // Every live grain, old or new, has a bounded lifetime, reads
            // behind the data already consumed, and within retained history.
            assert forall|i: int| 0 <= i < self.active.len() implies {
                &&& 1 <= grain_gap(#[trigger] self.active@[i]) <= 2 * li
                &&& self.active@[i].end <= n - 1
                &&& self.active@[i].read < a.count
                &&& self.active@[i].read + 4 * li >= a.count
                &&& 2 * self.active@[i].read + 7 * li + 3 >= 2 * n
            } by {
                if i < old(self).active.len() {
                    assert(self.active@[i] == old(self).active@[i]);
                    assert(2 * self.active@[i].read + 7 * li + 1 >= 2 * (n - 1));
                } else {
                    let ki = nearest_epoch(si, li);
                    assert(self.active@[i] == launched_grain(si, li));
                    assert(2 * (ki * li) <= 2 * si + li < 2 * (ki * li) + 2 * li);
                    assert(2 * (ki * li + 2 * li) <= 2 * si + 5 * li);
                    assert(2 * si + 5 * li == 2 * (n - 1) - li);
                }
                assert(2 * (self.active@[i].read + 4 * li) >= 2 * a.count + li - 3);
            }
            // Later grains still outlive earlier ones by their distance.
            assert forall|i: int, j: int| 0 <= i < j < self.active.len() implies
                grain_gap(#[trigger] self.active@[i]) + (j - i)
                    <= grain_gap(#[trigger] self.active@[j]) by {
                if j < old(self).active.len() {
                    assert(self.active@[i] == old(self).active@[i]);
                    assert(self.active@[j] == old(self).active@[j]);
                } else if old(self).countdown_q16 <= 0 {
                    assert(self.active@[i] == old(self).active@[i]);
                    assert(grain_gap(old(self).active@[i]) + (old(self).active@.len() - i)
                        <= 2 * li);
                    assert(grain_gap(self.active@[j]) == 2 * li);
                }
            }
            // The lifetime ordering bounds how many grains are live at once.
            if self.active.len() > 1 {
                assert(grain_gap(self.active@[0]) + (self.active@.len() - 1)
                    <= grain_gap(self.active@[self.active@.len() - 1]));
            }
            assert(self.active.len() <= 2 * li);
        }
        let ghost live = self.active@;
        let ghost cd1 = self.countdown_q16;

        // Sum the active grains' current weighted values.
        let mut acc: i64 = 0;
        let count = self.active.len();
        let mut i: usize = 0;
        while i < count
            invariant
                i <= count,
                count == self.active.len(),
                count <= 2 * li,
                a.wf(),
                a.l == l,
                li == l as int,
                valid_wavelength(li),
                self.active@ == live,
                self.l == l,
                self.countdown_q16 == cd1,
                self.emitted == old(self).emitted,
                self.target_q16 == old(self).target_q16,
                forall|q: int| 0 <= q < count ==> {
                    &&& #[trigger] live[q].read < a.count
                    &&& live[q].read + 4 * li >= a.count
                },
                acc == grains_sum(a.hist@, li, live.take(i as int)),
                -0x10_0000_0000i64 * (i as i64) <= acc <= 0x10_0000_0000i64 * (i as i64),
            decreases count - i,
        {
            let g = self.active[i];
            let v = a.weighted_at(g.read, g.use_a);
            proof {
                crate::window::lemma_taper_bounds(li, g.read as int % (2 * li));
                vstd::arithmetic::div_mod::lemma_mod_bound(g.read as int, 2 * li);
                let hv = a.hist@[g.read as int];
                let tv = if g.use_a {
                    crate::window::taper_a(li, g.read as int % (2 * li))
                } else {
                    crate::window::taper_b(li, g.read as int % (2 * li))
                };
                assert(v == hv * tv);
                assert(-0x10_0000_0000 <= hv * tv <= 0x10_0000_0000) by (nonlinear_arith)
                    requires -0x100_0000 <= hv <= 0x100_0000 && 0 <= tv <= 0x1000;
                lemma_grains_sum_push(a.hist@, li, live.take(i as int), g);
                assert(live.take(i as int).push(g) =~= live.take(i as int + 1));
                assert(-0x10_0000_0000i64 * (i as i64 + 1) <= acc + v) by (nonlinear_arith)
                    requires -0x10_0000_0000i64 * (i as i64) <= acc
                        && -0x10_0000_0000 <= v && i >= 0;
                assert(acc + v <= 0x10_0000_0000i64 * (i as i64 + 1)) by (nonlinear_arith)
                    requires acc <= 0x10_0000_0000i64 * (i as i64)
                        && v <= 0x10_0000_0000 && i >= 0;
                assert(0x10_0000_0000i64 * (i as i64 + 1) <= 0x20_0000_0000_0000)
                    by (nonlinear_arith)
                    requires i as i64 + 1 <= 0x2000;
            }
            acc = acc + v;
            i = i + 1;
        }
        proof {
            assert(live.take(count as int) =~= live);
            assert(-0x20_0000_0000_0000 <= acc <= 0x20_0000_0000_0000) by (nonlinear_arith)
                requires -0x10_0000_0000i64 * (count as i64) <= acc
                    <= 0x10_0000_0000i64 * (count as i64) && 0 <= count as i64 <= 0x2000;
        }

        // Normalize by the wavelength and saturate to the sample range.
        let y: i32 = if acc >= 0 {
            let q: u64 = (acc as u64) / (l as u64);
            proof {
                vstd::arithmetic::div_mod::lemma_div_pos_is_pos(acc as int, li);
                vstd::arithmetic::div_mod::lemma_div_is_ordered(0, acc as int, li);
            }
            if q > 0x7fff_ffff {
                i32::MAX
            } else {
                q as i32
            }
        } else {
            let m: u64 = ((-acc) as u64) / (l as u64);
            proof {
                vstd::arithmetic::div_mod::lemma_div_pos_is_pos(-acc as int, li);
            }
            if m >= 0x8000_0000 {
                i32::MIN
            } else {
                0i32 - (m as i32)
            }
        };
        proof {
            assert(y == clamp32(scale_down(acc as int, li)));
        }

        // Advance every grain one step and retire the finished front grain.
        let mut j: usize = 0;
        while j < count
            invariant
                j <= count,
                count == self.active.len(),
                self.active@.len() == live.len(),
                self.l == l,
                self.countdown_q16 == cd1,
                self.emitted == old(self).emitted,
                self.target_q16 == old(self).target_q16,
                forall|q: int| 0 <= q < j ==> #[trigger] self.active@[q] == step_grain(live[q]),
                forall|q: int| j <= q < count ==> #[trigger] self.active@[q] == live[q],
                forall|q: int| 0 <= q < count ==> grain_gap(#[trigger] live[q]) >= 1,
            decreases count - j,
        {
            let g = self.active[j];
            proof {
                assert(grain_gap(live[j as int]) >= 1);
            }
            let g2 = Grain { read: g.read + 1, end: g.end, use_a: g.use_a };
            self.active.set(j, g2);
            j = j + 1;
        }
        proof {
            assert(self.active@ =~= stepped_grains(live));
        }
        if self.active.len() > 0 {
            let front = self.active[0];
            if front.read == front.end {
                self.active.remove(0);
                proof {
                    assert(self.active@ =~= stepped_grains(live).skip(1));
                }
            }
        }
        proof {
            assert(cd1 <= old(self).target_q16 as i64 + old(self).target_q16 as i64);
            assert(li * 0x10_0000 <= 0x1_0000_0000_0000) by (nonlinear_arith)
                requires li <= 4096;
            assert(-0x1_0000 * (old(self).emitted as int + 1) <= cd1);
        }
        self.countdown_q16 = self.countdown_q16 - 0x1_0000;
        self.emitted = self.emitted + 1;
        proof {
            let stepped = stepped_grains(live);
            let act = self.active@;
            assert(act =~= advanced(live));
            let e2 = self.emitted as int;
            let off: int = if act.len() < stepped.len() { 1 } else { 0 };
            assert forall|i2: int| 0 <= i2 < act.len() implies {
                &&& 1 <= grain_gap(#[trigger] act[i2]) <= 2 * li - 1
                &&& act[i2].end <= e2
                &&& 2 * act[i2].read + 7 * li + 1 >= 2 * e2
            } by {
                let g0 = live[i2 + off];
                assert(act[i2] == step_grain(g0));
                assert(1 <= grain_gap(g0) <= 2 * li);
                assert(g0.end <= n - 1);
                assert(2 * g0.read + 7 * li + 3 >= 2 * n);
                if i2 + off > 0 {
                    assert(grain_gap(live[0]) + (i2 + off) <= grain_gap(live[i2 + off]));
                } else {
                    // The front grain survived the retirement check, so it
                    // still has at least one step left.
                    assert(act.len() == stepped.len());
                    assert(!(stepped.len() > 0 && stepped[0].read == stepped[0].end));
                    assert(grain_gap(act[0]) != 0);
                }
            }
            assert forall|i2: int, j2: int| 0 <= i2 < j2 < act.len() implies
                grain_gap(#[trigger] act[i2]) + (j2 - i2) <= grain_gap(#[trigger] act[j2]) by {
                assert(act[i2] == step_grain(live[i2 + off]));
                assert(act[j2] == step_grain(live[j2 + off]));
                assert(grain_gap(live[i2 + off]) + (j2 - i2) <= grain_gap(live[j2 + off]));
            }
        }
        y
    }
}

} // verus!
