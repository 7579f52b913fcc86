//! The engine: ownership and orchestration of the whole pipeline.
//!
//! A started engine owns the window, the analysis and synthesis stages, the
//! cross-context transport and the pitch control value.  The capture context
//! drives `capture_cycle` with each block of input samples; the render
//! context drains `render_cycle` on its own schedule; a control caller may
//! change the pitch ratio between cycles.  Stopping consumes the engine, so
//! no call can follow a stop and no handle can be reused — the terminal state
//! is unrepresentable rather than checked.

use vstd::prelude::*;

use crate::analysis::AnalysisStage;
use crate::codec::{encode_sample, sample_bytes};
use crate::params::{valid_amplitude, valid_wavelength, MAX_STREAM_LEN};
use crate::pitch::{ratio_is_valid, target_q16, target_q16_spec, valid_ratio, RATIO_ONE};
use crate::synthesis::{
    advanced, clamp32, grains_sum, launch_phase, launched_grain,
    lemma_unit_ratio_reconstruction, nearest_epoch, scale_down, step_grain, stepped_grains,
    Grain, SynthesisStage,
};
use crate::transport::{transport_bytes, transport_cap, Transport};
use crate::window::PitchWindow;

verus! {

/// Transport capacity, in bytes: eight capture cycles of 1024 samples, to
/// absorb scheduling jitter between the two contexts.
pub const TRANSPORT_CAPACITY: usize = 0x8000;

/// What the capture context tells the device layer after a cycle.
#[derive(Clone, Copy, PartialEq, Eq, Structural, Debug)]
pub enum CaptureOutcome {
    /// The cycle's samples were all synthesized and handed to the transport.
    Continue,
    /// The transport ran out of space (overrun): fatal for the capture path.
    Stop,
}

/// A sequence of samples as mathematical integers.
pub open spec fn sample_seq(v: Seq<i32>) -> Seq<int> {
    v.map_values(|x: i32| x as int)
}

/// How one synthesis step relates the stage before and after it, the history
/// it read, and the sample it produced: silence during warm-up, otherwise a
/// launch-sum-advance step.
pub open spec fn synth_step_rel(
    pre: SynthesisStage,
    post: SynthesisStage,
    hist: Seq<int>,
    y: int,
) -> bool {
    &&& post.l == pre.l
    &&& post.target_q16 == pre.target_q16
    &&& post.emitted == pre.emitted + 1
    &&& pre.emitted < pre.spec_delay() ==> {
        &&& y == 0
        &&& post.active == pre.active
        &&& post.countdown_q16 == pre.countdown_q16
    }
    &&& pre.emitted >= pre.spec_delay() ==> {
        let s = pre.emitted - pre.spec_delay();
        let li = pre.l as int;
        let live = launch_phase(pre.active@, pre.countdown_q16 as int, s, li);
        &&& y == clamp32(scale_down(grains_sum(hist, li, live), li))
        &&& post.active@ == advanced(live)
        &&& post.countdown_q16 == (if pre.countdown_q16 <= 0 {
            pre.countdown_q16 + pre.target_q16
        } else {
            pre.countdown_q16 as int
        }) - 0x1_0000
    }
}

/// The synthesis state that evolves across a cycle, as pure ghost data.
pub ghost struct SynthModel {
    /// Q16.16 countdown to the next grain launch.
    pub countdown: int,
    /// Output samples emitted so far.
    pub emitted: int,
    /// The grains currently being overlap-added, oldest first.
    pub active: Seq<Grain>,
}

/// The ghost image of a synthesis stage.
pub open spec fn synth_model(st: SynthesisStage) -> SynthModel {
    SynthModel {
        countdown: st.countdown_q16 as int,
        emitted: st.emitted as int,
        active: st.active@,
    }
}

/// One synthesis step on the ghost model: silence during the three-wavelength
/// warm-up, otherwise launch, sum, advance — the functional image of
/// [`SynthesisStage::tick`].
pub open spec fn model_step(m: SynthModel, l: int, target: int, hist: Seq<int>)
    -> (SynthModel, int) {
    if m.emitted < 3 * l {
        (SynthModel { countdown: m.countdown, emitted: m.emitted + 1, active: m.active }, 0)
    } else {
        let s = m.emitted - 3 * l;
        let live = launch_phase(m.active, m.countdown, s, l);
        let y = clamp32(scale_down(grains_sum(hist, l, live), l));
        let cd = (if m.countdown <= 0 {
            m.countdown + target
        } else {
            m.countdown
        }) - 0x1_0000;
        (SynthModel { countdown: cd, emitted: m.emitted + 1, active: advanced(live) }, y)
    }
}

/// The samples one cycle synthesizes, and the model it leaves behind: the
/// per-sample step folded over the inputs, the history growing by one sample
/// before each step.
pub open spec fn cycle_outputs(m: SynthModel, l: int, target: int, hist: Seq<int>, xs: Seq<int>)
    -> (SynthModel, Seq<int>)
    decreases xs.len(),
{
    if xs.len() == 0 {
        (m, Seq::empty())
    } else {
        let h1 = hist.push(xs[0]);
        let stepped = model_step(m, l, target, h1);
        let rest = cycle_outputs(stepped.0, l, target, h1, xs.skip(1));
        (rest.0, seq![stepped.1] + rest.1)
    }
}

/// The little-endian serialization of a sequence of samples.
pub open spec fn enc_all(ys: Seq<int>) -> Seq<u8>
    decreases ys.len(),
{
    if ys.len() == 0 {
        Seq::empty()
    } else {
        sample_bytes(ys[0]) + enc_all(ys.skip(1))
    }
}

/// A cycle synthesizes exactly one output per input.
proof fn lemma_cycle_outputs_len(m: SynthModel, l: int, target: int, hist: Seq<int>, xs: Seq<int>)
    ensures
        cycle_outputs(m, l, target, hist, xs).1.len() == xs.len(),
    decreases xs.len(),
{
    if xs.len() > 0 {
        let h1 = hist.push(xs[0]);
        let stepped = model_step(m, l, target, h1);
        lemma_cycle_outputs_len(stepped.0, l, target, h1, xs.skip(1));
    }
}

/// Serializing one more sample appends its four bytes.
proof fn lemma_enc_all_push(ys: Seq<int>, y: int)
    ensures
        enc_all(ys.push(y)) =~= enc_all(ys) + sample_bytes(y),
    decreases ys.len(),
{
    let pushed = ys.push(y);
    if ys.len() == 0 {
        assert(pushed.skip(1) =~= Seq::<int>::empty());
        assert(pushed[0] == y);
        assert(enc_all(Seq::<int>::empty()) =~= Seq::<u8>::empty());
        assert(enc_all(pushed) =~= sample_bytes(y) + enc_all(pushed.skip(1)));
        assert(sample_bytes(y) + Seq::<u8>::empty() =~= sample_bytes(y));
        assert(enc_all(ys) =~= Seq::<u8>::empty());
    } else {
        assert(pushed.skip(1) =~= ys.skip(1).push(y));
        lemma_enc_all_push(ys.skip(1), y);
        assert(pushed[0] == ys[0]);
        assert(enc_all(pushed) =~= sample_bytes(ys[0]) + enc_all(ys.skip(1).push(y)));
        assert(sample_bytes(ys[0]) + (enc_all(ys.skip(1)) + sample_bytes(y))
            =~= (sample_bytes(ys[0]) + enc_all(ys.skip(1))) + sample_bytes(y));
    }
}

/// The per-step relation the stage guarantees determines the ghost model's
/// step exactly.
proof fn lemma_rel_is_model_step(
    pre: SynthesisStage,
    post: SynthesisStage,
    hist: Seq<int>,
    y: int,
)
    requires
        synth_step_rel(pre, post, hist, y),
    ensures
        synth_model(post) == model_step(synth_model(pre), pre.l as int,
            pre.target_q16 as int, hist).0,
        y == model_step(synth_model(pre), pre.l as int, pre.target_q16 as int, hist).1,
{
}

/// The grain the unit-ratio schedule keeps for analysis epoch `j` at
/// synthesis clock `s`: reading position `s`, two wavelengths after its
/// epoch's start, on the taper stream of its epoch's parity.
pub open spec fn unit_grain(j: int, s: int, l: int) -> Grain {
    Grain { read: s as u64, end: (j * l + 2 * l) as u64, use_a: j % 2 == 0 }
}

/// The unit-ratio schedule: the shape the synthesis model has after any
/// number of steps with the target wavelength equal to the nominal one.  A
/// grain launches exactly at every multiple of the wavelength, so at clock
/// `s` the active grains are the ones from the one or two most recent
/// epochs, all reading position `s`, and the countdown is the distance to
/// the next multiple.
pub open spec fn unit_schedule(m: SynthModel, l: int) -> bool {
    let s = m.emitted - 3 * l;
    if s <= 0 {
        &&& m.active == Seq::<Grain>::empty()
        &&& m.countdown == 0
    } else {
        let q1 = (s - 1) / l;
        &&& m.countdown == (if s % l == 0 {
            0
        } else {
            (l - s % l) * 0x1_0000
        })
        &&& m.active == (if s % l == 0 {
            seq![unit_grain(s / l - 1, s, l)]
        } else if q1 == 0 {
            seq![unit_grain(0, s, l)]
        } else {
            seq![unit_grain(q1 - 1, s, l), unit_grain(q1, s, l)]
        })
    }
}

/// How division and remainder by the wavelength move when the clock ticks.
proof fn lemma_div_mod_step(s: int, l: int)
    requires
        0 < l,
        0 <= s,
    ensures
        s % l == l - 1 ==> (s + 1) % l == 0 && (s + 1) / l == s / l + 1,
        s % l < l - 1 ==> (s + 1) % l == s % l + 1 && (s + 1) / l == s / l,
{
    vstd::arithmetic::div_mod::lemma_fundamental_div_mod(s, l);
    vstd::arithmetic::div_mod::lemma_mod_bound(s, l);
    let q = s / l;
    if s % l == l - 1 {
        assert((q + 1) * l + 0 == s + 1) by (nonlinear_arith)
            requires s == l * q + (l - 1);
        vstd::arithmetic::div_mod::lemma_fundamental_div_mod_converse(s + 1, l, q + 1, 0);
    } else {
        assert(q * l + (s % l + 1) == s + 1) by (nonlinear_arith)
            requires s == l * q + s % l;
        vstd::arithmetic::div_mod::lemma_fundamental_div_mod_converse(s + 1, l, q, s % l + 1);
    }
}

/// One unit-ratio step keeps the schedule; and past the warm-up and the
/// first grain's fade-in it emits exactly the input sample three
/// wavelengths back.
pub proof fn lemma_unit_schedule_step(m: SynthModel, l: int, hist: Seq<int>)
    requires
        valid_wavelength(l),
        unit_schedule(m, l),
        0 <= m.emitted < MAX_STREAM_LEN,
        hist.len() == m.emitted + 1,
        forall|i: int| 0 <= i < hist.len() ==> valid_amplitude(#[trigger] hist[i]),
    ensures
        unit_schedule(model_step(m, l, l * 0x1_0000, hist).0, l),
        m.emitted - 3 * l >= l ==> model_step(m, l, l * 0x1_0000, hist).1
            == hist[m.emitted - 3 * l],
{
    let t = m.emitted;
    let s = t - 3 * l;
    let target = l * 0x1_0000;
    let stepped = model_step(m, l, target, hist);
    if t >= 3 * l {
        let live = launch_phase(m.active, m.countdown, s, l);
        vstd::arithmetic::div_mod::lemma_mod_bound(s, l);
        if s % l == 0 {
            // A launch step: the countdown has run out, and the launched
            // grain is the schedule's grain for epoch `s / l`.
            let q = s / l;
            vstd::arithmetic::div_mod::lemma_fundamental_div_mod(s, l);
            assert(m.countdown == 0);
            assert(nearest_epoch(s, l) == q) by {
                assert(q * (2 * l) + l == 2 * s + l) by (nonlinear_arith)
                    requires s == l * q;
                vstd::arithmetic::div_mod::lemma_fundamental_div_mod_converse(
                    2 * s + l, 2 * l, q, l);
            }
            assert(q * l == s) by (nonlinear_arith)
                requires s == l * q;
            assert(launched_grain(s, l) == unit_grain(q, s, l));
            if s == 0 {
                assert(live =~= seq![unit_grain(0, s, l)]);
            } else {
                assert(q >= 1) by (nonlinear_arith)
                    requires s == l * q && s > 0 && l > 0;
                assert((s - 1) / l == q - 1) by {
                    assert((q - 1) * l + (l - 1) == s - 1) by (nonlinear_arith)
                        requires s == l * q;
                    vstd::arithmetic::div_mod::lemma_fundamental_div_mod_converse(
                        s - 1, l, q - 1, l - 1);
                }
                assert(m.active == seq![unit_grain(q - 1, s, l)]);
                assert(live =~= seq![unit_grain(q - 1, s, l), unit_grain(q, s, l)]);
            }
        } else {
            // No launch: the countdown is still positive.
            assert(s % l != 0);
            vstd::arithmetic::div_mod::lemma_small_mod(0nat, l as nat);
            assert(s != 0);
            assert(s > 0);
            assert(m.countdown == (l - s % l) * 0x1_0000);
            assert(m.countdown > 0) by (nonlinear_arith)
                requires m.countdown == (l - s % l) * 0x1_0000 && 0 < s % l < l;
            assert(live == m.active);
            assert((s - 1) / l == s / l) by {
                vstd::arithmetic::div_mod::lemma_fundamental_div_mod(s, l);
                assert((s / l) * l + (s % l - 1) == s - 1) by (nonlinear_arith)
                    requires s == l * (s / l) + s % l;
                vstd::arithmetic::div_mod::lemma_fundamental_div_mod_converse(
                    s - 1, l, s / l, s % l - 1);
            }
        }
        // In every case past the fade-in the live set is the reconstruction
        // pair, so the emitted sample is the delayed input.
        if s >= l {
            let q = s / l;
            vstd::arithmetic::div_mod::lemma_div_pos_is_pos(s, l);
            assert(q >= 1) by {
                vstd::arithmetic::div_mod::lemma_div_is_ordered(l, s, l);
                vstd::arithmetic::div_mod::lemma_div_multiples_vanish(1, l);
            }
            let older = Grain {
                read: s as u64,
                end: (q * l + l) as u64,
                use_a: (q - 1) % 2 == 0,
            };
            let newer = Grain {
                read: s as u64,
                end: (q * l + 2 * l) as u64,
                use_a: q % 2 == 0,
            };
            assert((q - 1) * l + 2 * l == q * l + l) by (nonlinear_arith);
            assert(unit_grain(q - 1, s, l) == older);
            assert(unit_grain(q, s, l) == newer);
            assert(live =~= seq![older, newer]);
            lemma_unit_ratio_reconstruction(hist, l, s);
            assert(stepped.1 == hist[s]);
        }
        // The advanced set and the decremented countdown fit the schedule
        // at the next clock.
        let s2 = s + 1;
        lemma_div_mod_step(s, l);
        vstd::arithmetic::div_mod::lemma_small_mod(1nat, l as nat);
        assert forall|j: int, sc: int| 0 <= sc < MAX_STREAM_LEN implies
            step_grain(unit_grain(j, sc, l)) == unit_grain(j, sc + 1, l) by {
        }
        if s == 0 {
            assert(stepped_grains(live) =~= seq![unit_grain(0, s2, l)]);
            assert(stepped.0.active == seq![unit_grain(0, s2, l)]);
            assert(stepped.0.countdown == (l - 1) * 0x1_0000);
            assert(s2 % l == 1);
            assert((s2 - 1) / l == 0) by {
                vstd::arithmetic::div_mod::lemma_basic_div(0, l);
            }
        } else if s % l == 0 {
            let q = s / l;
            assert(stepped_grains(live)
                =~= seq![unit_grain(q - 1, s2, l), unit_grain(q, s2, l)]);
            assert(unit_grain(q - 1, s2, l).read != unit_grain(q - 1, s2, l).end) by {
                assert(s2 == q * l + 1);
                assert((q - 1) * l + 2 * l == q * l + l) by (nonlinear_arith);
            }
            assert(stepped.0.active
                == seq![unit_grain(q - 1, s2, l), unit_grain(q, s2, l)]);
            assert(stepped.0.countdown == (l - 1) * 0x1_0000);
            assert(s2 % l == 1 && s2 / l == q);
            assert((s2 - 1) / l == q);
        } else if (s - 1) / l == 0 {
            // Fade-in region: the single first grain keeps playing.
            assert(s < l) by {
                vstd::arithmetic::div_mod::lemma_fundamental_div_mod(s - 1, l);
            }
            assert(stepped_grains(live) =~= seq![unit_grain(0, s2, l)]);
            assert(unit_grain(0, s2, l).read != unit_grain(0, s2, l).end);
            assert(stepped.0.active == seq![unit_grain(0, s2, l)]);
            assert(stepped.0.countdown == (l - s % l - 1) * 0x1_0000) by (nonlinear_arith)
                requires stepped.0.countdown == (l - s % l) * 0x1_0000 - 0x1_0000;
            vstd::arithmetic::div_mod::lemma_small_mod(s as nat, l as nat);
            if s2 == l {
                assert(s2 % l == 0 && s2 / l == 1) by {
                    assert(1 * l + 0 == s2) by (nonlinear_arith)
                        requires s2 == l;
                    vstd::arithmetic::div_mod::lemma_fundamental_div_mod_converse(s2, l, 1, 0);
                }
                assert(stepped.0.countdown == 0);
            } else {
                assert(s2 % l == s2 && s2 / l == 0) by {
                    vstd::arithmetic::div_mod::lemma_small_mod(s2 as nat, l as nat);
                    vstd::arithmetic::div_mod::lemma_basic_div(s2, l);
                }
                assert((s2 - 1) / l == 0) by {
                    vstd::arithmetic::div_mod::lemma_basic_div(s2 - 1, l);
                }
            }
        } else {
            // Steady state: two grains, the older of which retires exactly
            // when the clock reaches the next epoch boundary.
            let q = s / l;
            assert(q >= 1);
            vstd::arithmetic::div_mod::lemma_fundamental_div_mod(s, l);
            assert(m.active == seq![unit_grain(q - 1, s, l), unit_grain(q, s, l)]);
            assert(stepped_grains(live)
                =~= seq![unit_grain(q - 1, s2, l), unit_grain(q, s2, l)]);
            assert((q - 1) * l + 2 * l == q * l + l) by (nonlinear_arith);
            assert(0 <= q * l && q * l <= s) by (nonlinear_arith)
                requires s == l * q + s % l && 0 <= s % l && 0 < l && 0 <= q;
            assert(unit_grain(q - 1, s2, l).end == q * l + l);
            assert(stepped.0.countdown == (l - s % l - 1) * 0x1_0000) by (nonlinear_arith)
                requires stepped.0.countdown == (l - s % l) * 0x1_0000 - 0x1_0000;
            if s % l == l - 1 {
                // The clock reaches the next multiple: the older grain ends.
                assert(s2 % l == 0 && s2 / l == q + 1);
                assert(s2 == q * l + l) by {
                    vstd::arithmetic::div_mod::lemma_fundamental_div_mod(s, l);
                }
                assert(stepped.0.active
                    == seq![unit_grain(q - 1, s2, l), unit_grain(q, s2, l)].skip(1));
                assert(seq![unit_grain(q - 1, s2, l), unit_grain(q, s2, l)].skip(1)
                    =~= seq![unit_grain(q, s2, l)]);
                assert(stepped.0.countdown == 0);
                assert(s2 / l - 1 == q);
            } else {
                assert(s2 % l == s % l + 1 && s2 / l == q);
                assert(s2 != q * l + l) by {
                    vstd::arithmetic::div_mod::lemma_fundamental_div_mod(s, l);
                }
                assert(stepped.0.active
                    == seq![unit_grain(q - 1, s2, l), unit_grain(q, s2, l)]);
                assert((s2 - 1) / l == q);
            }
        }
    }
}

/// Folded over any input block, the unit-ratio machine keeps its schedule
/// and emits, at every step past the warm-up and the fade-in, exactly the
/// input sample three wavelengths back.
pub proof fn lemma_unit_cycle(m: SynthModel, l: int, hist: Seq<int>, xs: Seq<int>)
    requires
        valid_wavelength(l),
        unit_schedule(m, l),
        0 <= m.emitted,
        m.emitted + xs.len() <= MAX_STREAM_LEN,
        hist.len() == m.emitted,
        forall|i: int| 0 <= i < hist.len() ==> valid_amplitude(#[trigger] hist[i]),
        forall|i: int| 0 <= i < xs.len() ==> valid_amplitude(#[trigger] xs[i]),
    ensures
        unit_schedule(cycle_outputs(m, l, l * 0x1_0000, hist, xs).0, l),
        cycle_outputs(m, l, l * 0x1_0000, hist, xs).0.emitted == m.emitted + xs.len(),
        forall|i: int| 0 <= i < xs.len() && m.emitted + i - 3 * l >= l ==>
            #[trigger] cycle_outputs(m, l, l * 0x1_0000, hist, xs).1[i]
                == (hist + xs)[m.emitted + i - 3 * l],
    decreases xs.len(),
{
    let target = l * 0x1_0000;
    let run = cycle_outputs(m, l, target, hist, xs);
    lemma_cycle_outputs_len(m, l, target, hist, xs);
    if xs.len() > 0 {
        let h1 = hist.push(xs[0]);
        let stepped = model_step(m, l, target, h1);
        assert(forall|i: int| 0 <= i < h1.len() ==> valid_amplitude(#[trigger] h1[i])) by {
            assert(h1[h1.len() - 1] == xs[0]);
        }
        lemma_unit_schedule_step(m, l, h1);
        lemma_unit_cycle(stepped.0, l, h1, xs.skip(1));
        let rest = cycle_outputs(stepped.0, l, target, h1, xs.skip(1));
        lemma_cycle_outputs_len(stepped.0, l, target, h1, xs.skip(1));
        assert(run == (rest.0, seq![stepped.1] + rest.1));
        assert(h1 + xs.skip(1) =~= hist + xs);
        assert forall|i: int| 0 <= i < xs.len() && m.emitted + i - 3 * l >= l implies
            #[trigger] run.1[i] == (hist + xs)[m.emitted + i - 3 * l] by {
            if i == 0 {
                assert(run.1[0] == stepped.1);
                assert(stepped.1 == h1[m.emitted - 3 * l]);
                assert(m.emitted - 3 * l < hist.len());
                assert(h1[m.emitted - 3 * l] == (hist + xs)[m.emitted - 3 * l]);
            } else {
                assert(run.1[i] == rest.1[i - 1]);
                assert(rest.1[i - 1] == (h1 + xs.skip(1))[stepped.0.emitted + (i - 1) - 3 * l]);
                assert(stepped.0.emitted + (i - 1) == m.emitted + i);
            }
        }
    }
}

/// Reconstruction at unit pitch ratio, end to end: run from a fresh
/// engine's synthesis state with the target wavelength equal to the nominal
/// one, the cycle fold — the same fold `capture_cycle`'s contract ties real
/// runs to — emits, at every step past the three-wavelength warm-up and the
/// first grain's one-wavelength fade-in, exactly the input sample three
/// wavelengths back: the synthesized output reproduces the input, and with
/// it its wavelength, with no tolerance at all.
pub proof fn lemma_unit_ratio_identity(l: int, xs: Seq<int>)
    requires
        valid_wavelength(l),
        xs.len() <= MAX_STREAM_LEN,
        forall|i: int| 0 <= i < xs.len() ==> valid_amplitude(#[trigger] xs[i]),
    ensures
        forall|t: int| 4 * l <= t < xs.len() ==>
            #[trigger] cycle_outputs(
                SynthModel { countdown: 0, emitted: 0, active: Seq::empty() },
                l, l * 0x1_0000, Seq::empty(), xs).1[t] == xs[t - 3 * l],
{
    let m0 = SynthModel { countdown: 0, emitted: 0, active: Seq::empty() };
    assert(unit_schedule(m0, l));
    lemma_unit_cycle(m0, l, Seq::empty(), xs);
    assert(Seq::<int>::empty() + xs =~= xs);
}

/// A running engine.  Constructed by [`Engine::start`], destroyed — by move —
/// by [`Engine::stop`].
pub struct Engine {
    /// The grain shape and nominal period, immutable once constructed.
    pub window: PitchWindow,
    /// Input-side accumulator, owned by the capture context.
    pub analysis: AnalysisStage,
    /// Output-side accumulator, owned by the capture context.
    pub synthesis: SynthesisStage,
    /// The byte channel to the render context.
    pub transport: Transport,
    /// Current pitch ratio, Q16.16; read once per capture cycle.
    pub pitch_q16: u32,
}

impl Engine {
    /// Well-formedness: the stages agree on the wavelength, analysis and
    /// synthesis stay in lock step (every consumed sample has been
    /// resynthesized), the ratio is representable and the transport keeps
    /// its fixed capacity.
    pub open spec fn wf(&self) -> bool {
        &&& self.window.wf()
        &&& self.analysis.wf()
        &&& self.synthesis.wf()
        &&& self.analysis.l == self.window.spec_wavelength()
        &&& self.synthesis.l == self.window.spec_wavelength()
        &&& self.analysis.count == self.synthesis.emitted
        &&& valid_ratio(self.pitch_q16 as int)
        &&& transport_cap(self.transport) == TRANSPORT_CAPACITY
    }

    /// Starts an engine for a nominal wavelength (samples per pitch period).
    /// Fails, constructing nothing, exactly when the wavelength is out of
    /// the supported range.  The pitch ratio starts at 1.
    pub fn start(nominal_wavelength: usize) -> (r: Option<Engine>)
        ensures
            r is Some <==> valid_wavelength(nominal_wavelength as int),
            r is Some ==> {
                let e = r->Some_0;
                &&& e.wf()
                &&& e.window.spec_wavelength() == nominal_wavelength
                &&& e.analysis.count == 0
                &&& e.analysis.hist@ =~= Seq::<int>::empty()
                &&& e.pitch_q16 == RATIO_ONE
                &&& transport_bytes(e.transport) =~= Seq::<u8>::empty()
            },
    {
        match PitchWindow::new(nominal_wavelength) {
            None => None,
            Some(window) => {
                let analysis = AnalysisStage::new(&window);
                let synthesis = SynthesisStage::new(nominal_wavelength);
                let transport = Transport::new(TRANSPORT_CAPACITY);
                Some(Engine { window, analysis, synthesis, transport, pitch_q16: RATIO_ONE })
            }
        }
    }

    /// Sets the pitch ratio (Q16.16; 65536 is unchanged pitch).  Fails,
    /// changing nothing, exactly when the ratio is not representable.  Takes
    /// effect at the start of the next capture cycle.
    pub fn set_pitch(&mut self, ratio_q16: u32) -> (ok: bool)
        requires
            old(self).wf(),
        ensures
            final(self).wf(),
            ok <==> valid_ratio(ratio_q16 as int),
            ok ==> final(self).pitch_q16 == ratio_q16,
            !ok ==> final(self).pitch_q16 == old(self).pitch_q16,
            final(self).window == old(self).window,
            final(self).analysis == old(self).analysis,
            final(self).synthesis == old(self).synthesis,
            final(self).transport == old(self).transport,
    {
        if ratio_is_valid(ratio_q16) {
            self.pitch_q16 = ratio_q16;
            true
        } else {
            false
        }
    }

    /// Processes one input sample: consumes it into the analysis stage,
    /// synthesizes exactly one output sample, and hands its four bytes to
    /// the transport.  If the transport lacks room for a whole sample — an
    /// overrun — nothing changes at all and the call reports failure.
    pub fn process_sample(&mut self, x: i32) -> (r: (i32, bool))
        requires
            old(self).wf(),
            valid_amplitude(x as int),
            old(self).analysis.count < MAX_STREAM_LEN,
        ensures
            final(self).wf(),
            final(self).window == old(self).window,
            final(self).pitch_q16 == old(self).pitch_q16,
            transport_cap(final(self).transport) == transport_cap(old(self).transport),
            r.1 <==> transport_bytes(old(self).transport).len() + 4 <= TRANSPORT_CAPACITY,
            !r.1 ==> *final(self) == *old(self) && r.0 == 0,
            r.1 ==> {
                &&& final(self).analysis.count == old(self).analysis.count + 1
                &&& final(self).analysis.hist@ =~= old(self).analysis.hist@.push(x as int)
                &&& final(self).analysis.l == old(self).analysis.l
                &&& synth_step_rel(old(self).synthesis, final(self).synthesis,
                    final(self).analysis.hist@, r.0 as int)
                &&& transport_bytes(final(self).transport)
                    =~= transport_bytes(old(self).transport) + sample_bytes(r.0 as int)
            },
    {
        let fr = self.transport.free();
        if fr < 4 {
            return (0, false);
        }
        self.analysis.push_sample(x, &self.window);
        let y = self.synthesis.tick(&self.analysis);
        let (b0, b1, b2, b3) = encode_sample(y);
        let bytes: [u8; 4] = [b0, b1, b2, b3];
        let wrote = self.transport.try_write(bytes.as_slice());
        proof {
            assert(bytes@ =~= sample_bytes(y as int));
            assert(wrote);
        }
        (y, true)
    }

    /// Runs one capture cycle: reads the pitch ratio once, recomputes the
    /// target synthesis wavelength as `nominal / ratio`, then consumes every
    /// input sample and synthesizes exactly one output sample per input
    /// sample (1:1 throughput), handing the serialized bytes to the
    /// transport in order.  Returns `Stop` — the overrun is fatal for the
    /// capture path — exactly when the transport cannot take the whole
    /// cycle; the samples synthesized before the overrun stay delivered, and
    /// already-queued bytes are never corrupted.
    pub fn capture_cycle(&mut self, input: &Vec<i32>) -> (r: CaptureOutcome)
        requires
            old(self).wf(),
            forall|i: int| 0 <= i < input.len() ==> valid_amplitude(#[trigger] input@[i] as int),
            old(self).analysis.count + input.len() <= MAX_STREAM_LEN,
        ensures
            final(self).wf(),
            final(self).window == old(self).window,
            final(self).pitch_q16 == old(self).pitch_q16,
            final(self).synthesis.target_q16 == target_q16_spec(
                old(self).window.spec_wavelength(), old(self).pitch_q16 as int),
            r == CaptureOutcome::Continue <==> transport_bytes(old(self).transport).len()
                + 4 * input.len() <= TRANSPORT_CAPACITY,
            ({
                let c: int = if r == CaptureOutcome::Continue {
                    input.len() as int
                } else {
                    (TRANSPORT_CAPACITY - transport_bytes(old(self).transport).len()) / 4
                };
                &&& final(self).analysis.count == old(self).analysis.count + c
                &&& final(self).synthesis.emitted == old(self).synthesis.emitted + c
                &&& final(self).analysis.hist@
                    =~= old(self).analysis.hist@ + sample_seq(input@).take(c)
                &&& transport_bytes(final(self).transport).len()
                    == transport_bytes(old(self).transport).len() + 4 * c
            }),
            ({
                let li = old(self).window.spec_wavelength();
                let t = target_q16_spec(li, old(self).pitch_q16 as int);
                let m0 = SynthModel {
                    countdown: vstd::math::min(old(self).synthesis.countdown_q16 as int, t),
                    emitted: old(self).synthesis.emitted as int,
                    active: old(self).synthesis.active@,
                };
                let run = cycle_outputs(m0, li, t, old(self).analysis.hist@, sample_seq(input@));
                let c: int = if r == CaptureOutcome::Continue {
                    input.len() as int
                } else {
                    (TRANSPORT_CAPACITY - transport_bytes(old(self).transport).len()) / 4
                };
                &&& transport_bytes(final(self).transport)
                    =~= transport_bytes(old(self).transport) + enc_all(run.1.take(c))
                &&& r == CaptureOutcome::Continue
                    ==> synth_model(final(self).synthesis) == run.0
            }),
    {
        let l = self.window.wavelength();
        let t = target_q16(l, self.pitch_q16);
        self.synthesis.set_wavelength(t);
        let ghost li = old(self).window.spec_wavelength();
        let ghost ti = target_q16_spec(li, old(self).pitch_q16 as int);
        let ghost xs = sample_seq(input@);
        let ghost hist0 = old(self).analysis.hist@;
        let ghost m0 = SynthModel {
            countdown: vstd::math::min(old(self).synthesis.countdown_q16 as int, ti),
            emitted: old(self).synthesis.emitted as int,
            active: old(self).synthesis.active@,
        };
        let ghost run = cycle_outputs(m0, li, ti, hist0, xs);
        let ghost b0 = transport_bytes(old(self).transport).len() as int;
        let ghost bytes0 = transport_bytes(old(self).transport);
        let _queued = self.transport.len();
        proof {
            assert(b0 <= TRANSPORT_CAPACITY);
            assert(synth_model(self.synthesis) == m0);
            assert(xs.skip(0) =~= xs);
            assert(run.1.skip(0) =~= run.1);
            assert(run.1.take(0) =~= Seq::<int>::empty());
            assert(bytes0 + enc_all(run.1.take(0)) =~= bytes0);
            lemma_cycle_outputs_len(m0, li, ti, hist0, xs);
        }
        let n = input.len();
        let mut j: usize = 0;
        while j < n
            invariant
                j <= n,
                n == input.len(),
                self.wf(),
                self.window == old(self).window,
                self.pitch_q16 == old(self).pitch_q16,
                self.synthesis.target_q16 == target_q16_spec(
                    old(self).window.spec_wavelength(), old(self).pitch_q16 as int),
                forall|i: int| 0 <= i < input.len()
                    ==> valid_amplitude(#[trigger] input@[i] as int),
                old(self).analysis.count + input.len() <= MAX_STREAM_LEN,
                self.analysis.count == old(self).analysis.count + j,
                self.synthesis.emitted == old(self).synthesis.emitted + j,
                self.analysis.hist@ =~= old(self).analysis.hist@
                    + sample_seq(input@).take(j as int),
                b0 == transport_bytes(old(self).transport).len(),
                bytes0 == transport_bytes(old(self).transport),
                transport_bytes(self.transport).len() == b0 + 4 * j,
                transport_cap(self.transport) == TRANSPORT_CAPACITY,
                b0 + 4 * j <= TRANSPORT_CAPACITY,
                li == old(self).window.spec_wavelength(),
                ti == target_q16_spec(li, old(self).pitch_q16 as int),
                xs == sample_seq(input@),
                hist0 == old(self).analysis.hist@,
                m0 == (SynthModel {
                    countdown: vstd::math::min(old(self).synthesis.countdown_q16 as int, ti),
                    emitted: old(self).synthesis.emitted as int,
                    active: old(self).synthesis.active@,
                }),
                run == cycle_outputs(m0, li, ti, hist0, xs),
                run.1.len() == n,
                self.synthesis.l == li,
                self.synthesis.target_q16 == ti,
                cycle_outputs(synth_model(self.synthesis), li, ti, self.analysis.hist@,
                    xs.skip(j as int)) == (run.0, run.1.skip(j as int)),
                transport_bytes(self.transport) =~= bytes0 + enc_all(run.1.take(j as int)),
            decreases n - j,
        {
            let ghost pre_synth = self.synthesis;
            let ghost hist_j = self.analysis.hist@;
            let (y, ok) = self.process_sample(input[j]);
            if !ok {
                proof {
                    assert(b0 + 4 * j <= TRANSPORT_CAPACITY < b0 + 4 * j + 4);
                    assert((TRANSPORT_CAPACITY - b0) / 4 == j) by {
                        vstd::arithmetic::div_mod::lemma_fundamental_div_mod_converse(
                            TRANSPORT_CAPACITY - b0, 4, j as int, TRANSPORT_CAPACITY - b0 - 4 * j);
                    }
                    assert(b0 + 4 * (n as int) > TRANSPORT_CAPACITY);
                    assert(transport_bytes(self.transport)
                        =~= bytes0 + enc_all(run.1.take(j as int)));
                }
                return CaptureOutcome::Stop;
            }
            proof {
                let ji = j as int;
                assert(xs.take(ji).push(input@[ji] as int) =~= xs.take(ji + 1));
                // One unfolding of the cycle fold matches this step.
                let tail = xs.skip(ji);
                assert(tail[0] == xs[ji]);
                assert(tail.len() == n - ji);
                let h1 = hist_j.push(tail[0]);
                assert(h1 =~= self.analysis.hist@);
                lemma_rel_is_model_step(pre_synth, self.synthesis, self.analysis.hist@, y as int);
                let stepped = model_step(synth_model(pre_synth), li, ti, h1);
                assert(stepped.0 == synth_model(self.synthesis));
                assert(stepped.1 == y as int);
                let rest = cycle_outputs(stepped.0, li, ti, h1, tail.skip(1));
                assert(cycle_outputs(synth_model(pre_synth), li, ti, hist_j, tail)
                    == (rest.0, seq![stepped.1] + rest.1));
                assert(tail.skip(1) =~= xs.skip(ji + 1));
                assert(run.0 == rest.0);
                assert(run.1.skip(ji) == seq![stepped.1] + rest.1);
                assert(run.1.skip(ji)[0] == run.1[ji]);
                assert(run.1[ji] == y as int);
                assert(rest.1 =~= run.1.skip(ji).skip(1));
                assert(run.1.skip(ji).skip(1) =~= run.1.skip(ji + 1));
                assert(cycle_outputs(synth_model(self.synthesis), li, ti, self.analysis.hist@,
                    xs.skip(ji + 1)) == (run.0, run.1.skip(ji + 1)));
                // The transport grew by exactly this sample's bytes.
                lemma_enc_all_push(run.1.take(ji), y as int);
                assert(run.1.take(ji).push(run.1[ji]) =~= run.1.take(ji + 1));
                assert(transport_bytes(self.transport)
                    =~= bytes0 + enc_all(run.1.take(ji + 1)));
            }
            j = j + 1;
        }
        proof {
            assert(xs.take(n as int) =~= xs);
            assert(run.1.take(n as int) =~= run.1);
            assert(xs.skip(n as int) =~= Seq::<int>::empty());
            assert(run.1.skip(n as int) =~= Seq::<int>::empty());
            assert(cycle_outputs(synth_model(self.synthesis), li, ti, self.analysis.hist@,
                xs.skip(n as int)).0 == synth_model(self.synthesis));
        }
        CaptureOutcome::Continue
    }

    /// Runs one render cycle: drains up to `want` bytes from the transport,
    /// oldest first, without blocking.  On underrun the result is simply
    /// shorter than requested — a glitch, not a fault — and the render
    /// stream carries on.
    pub fn render_cycle(&mut self, want: usize) -> (r: Vec<u8>)
        requires
            old(self).wf(),
        ensures
            final(self).wf(),
            final(self).window == old(self).window,
            final(self).pitch_q16 == old(self).pitch_q16,
            final(self).analysis == old(self).analysis,
            final(self).synthesis == old(self).synthesis,
            r@.len() == vstd::math::min(want as int,
                transport_bytes(old(self).transport).len() as int),
            r@ =~= transport_bytes(old(self).transport).take(r@.len() as int),
            transport_bytes(final(self).transport)
                =~= transport_bytes(old(self).transport).skip(r@.len() as int),
            transport_cap(final(self).transport) == transport_cap(old(self).transport),
    {
        self.transport.read_up_to(want)
    }

    /// Stops the engine, consuming it: afterwards no capture, render or
    /// pitch call can exist, so stopping twice or using a stale handle is
    /// impossible by construction.  Returns the totals of samples consumed
    /// and produced — equal, by the 1:1 throughput invariant.
    pub fn stop(self) -> (r: (u64, u64))
        requires
            self.wf(),
        ensures
            r.0 == self.analysis.count,
            r.1 == self.synthesis.emitted,
            r.0 == r.1,
    {
        (self.analysis.count, self.synthesis.emitted)
    }
}

} // verus!
