//! End-to-end tests of the engine: throughput, reconstruction, pitch shift
//! and lifecycle.

use voice_changer::engine::{CaptureOutcome, Engine};
use voice_changer::pitch::RATIO_ONE;

/// A periodic test signal with the given wavelength, bounded well within the
/// pipeline's amplitude headroom.
fn periodic_signal(len: usize, wavelength: usize) -> Vec<i32> {
    let mut v = Vec::with_capacity(len);
    for t in 0..len {
        let phase = (t % wavelength) as f64 / wavelength as f64;
        let s = (phase * 2.0 * std::f64::consts::PI).sin();
        v.push((s * 1_000_000.0) as i32);
    }
    v
}

/// Runs the signal through a fresh engine in cycles of `cycle` samples and
/// returns the decoded output samples, in order.
fn run_pipeline(nominal: usize, ratio_q16: u32, signal: &[i32], cycle: usize) -> Vec<i32> {
    let mut engine = Engine::start(nominal).expect("wavelength in range");
    assert!(engine.set_pitch(ratio_q16));
    let mut out_bytes: Vec<u8> = Vec::new();
    for block in signal.chunks(cycle) {
        let input: Vec<i32> = block.to_vec();
        let outcome = engine.capture_cycle(&input);
        assert_eq!(outcome, CaptureOutcome::Continue);
        let drained = engine.render_cycle(4 * block.len());
        assert_eq!(drained.len(), 4 * block.len());
        out_bytes.extend_from_slice(&drained);
    }
    let (consumed, produced) = engine.stop();
    assert_eq!(consumed, produced);
    let mut out = Vec::with_capacity(out_bytes.len() / 4);
    for c in out_bytes.chunks(4) {
        out.push(voice_changer::codec::decode_sample(c[0], c[1], c[2], c[3]));
    }
    out
}

#[test]
fn throughput_is_one_to_one_for_any_ratio() {
    // One output sample for every input sample, whatever the ratio.
    for &ratio in &[0x1000u32, 0x8000, RATIO_ONE, 0x1_8000, 0x2_0000, 0x10_0000, 99_991] {
        let signal = periodic_signal(5 * 96, 160);
        let out = run_pipeline(160, ratio, &signal, 96);
        assert_eq!(out.len(), signal.len());
    }
}

#[test]
fn unit_ratio_reconstructs_the_input_exactly() {
    // At ratio 1 the output is the input, delayed by the warm-up latency of
    // three wavelengths, exactly — the complementary tapers sum to the
    // wavelength, so overlap-add is lossless in integer arithmetic.
    let l = 160;
    let delay = 3 * l;
    let signal = periodic_signal(1200, l);
    let out = run_pipeline(l, RATIO_ONE, &signal, 96);
    assert_eq!(out.len(), signal.len());
    // The first three wavelengths are silence.
    for t in 0..delay {
        assert_eq!(out[t], 0);
    }
    // After the delay plus one wavelength of grain fade-in, reconstruction
    // is exact.
    for t in (delay + l)..out.len() {
        assert_eq!(out[t], signal[t - delay], "mismatch at {}", t);
    }
}

#[test]
fn doubling_the_ratio_halves_the_output_period() {
    // Nominal wavelength 160 samples (48 kHz / 300 Hz), ratio 2: the output
    // must be periodic with wavelength 80 samples (600 Hz).
    let l = 160;
    let signal = periodic_signal(2000, l);
    let out = run_pipeline(l, 0x2_0000, &signal, 100);
    assert_eq!(out.len(), signal.len());
    // Steady state: exactly periodic at 80 samples.
    for t in 1000..1900 {
        assert_eq!(out[t], out[t + 80], "period mismatch at {}", t);
    }
    // For the period measurement use a pulse train — the impulse-like
    // waveform pitch-synchronous resynthesis is made for — so that the
    // autocorrelation of the shifted output has a clean peak.
    let mut pulses: Vec<i32> = vec![0; 2000];
    for t in 0..pulses.len() {
        let ph = t % l;
        if ph < 12 {
            pulses[t] = 1_000_000 - (ph as i32) * 80_000;
        }
    }
    let out = run_pipeline(l, 0x2_0000, &pulses, 100);
    let seg = &out[1000..1800];
    let window = 400;
    let mut best_lag = 0usize;
    let mut best: i64 = i64::MIN;
    for lag in 40..=200usize {
        let mut corr: i64 = 0;
        for t in 0..window {
            corr += seg[t] as i64 * seg[t + lag] as i64;
        }
        if corr > best {
            best = corr;
            best_lag = lag;
        }
    }
    assert!(
        (78..=82).contains(&best_lag) || (158..=162).contains(&best_lag),
        "autocorrelation peak at {} instead of 80",
        best_lag
    );
    // The smallest near-maximal lag is the period: 80.
    let mut corr80: i64 = 0;
    for t in 0..window {
        corr80 += seg[t] as i64 * seg[t + 80] as i64;
    }
    assert!(corr80 >= best - best / 100);
}

#[test]
fn halving_the_ratio_doubles_the_output_period() {
    // Ratio 1/2: the output must be periodic with wavelength 320 samples.
    let l = 160;
    let signal = periodic_signal(2400, l);
    let out = run_pipeline(l, 0x8000, &signal, 100);
    for t in 1200..2000 {
        assert_eq!(out[t], out[t + 320], "period mismatch at {}", t);
    }
}

#[test]
fn start_rejects_out_of_range_wavelengths() {
    assert!(Engine::start(0).is_none());
    assert!(Engine::start(1).is_none());
    assert!(Engine::start(4097).is_none());
    assert!(Engine::start(2).is_some());
    assert!(Engine::start(4096).is_some());
}

#[test]
fn set_pitch_rejects_unrepresentable_ratios() {
    let mut engine = Engine::start(160).expect("wavelength in range");
    assert!(!engine.set_pitch(0));
    assert!(!engine.set_pitch(0xfff));
    assert!(!engine.set_pitch(0x10_0001));
    assert!(engine.set_pitch(0x1000));
    assert!(engine.set_pitch(0x10_0000));
    assert!(engine.set_pitch(RATIO_ONE));
    engine.stop();
}

#[test]
fn stop_consumes_the_engine_and_reports_balanced_totals() {
    // Stopping takes the engine by value: a second stop, or any use after
    // stop, does not compile, so double release is impossible by
    // construction.  The totals it reports are balanced 1:1.
    let mut engine = Engine::start(64).expect("wavelength in range");
    let signal = periodic_signal(640, 64);
    for block in signal.chunks(64) {
        let input: Vec<i32> = block.to_vec();
        assert_eq!(engine.capture_cycle(&input), CaptureOutcome::Continue);
    }
    let (consumed, produced) = engine.stop();
    assert_eq!(consumed, 640);
    assert_eq!(produced, 640);
}
