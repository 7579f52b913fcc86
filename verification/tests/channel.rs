//! Tests of the cross-context transport: round trip, overrun and underrun.

use voice_changer::engine::{CaptureOutcome, Engine};
use voice_changer::transport::Transport;

#[test]
fn round_trip_reproduces_the_exact_byte_sequence() {
    let mut t = Transport::new(64);
    let data: Vec<u8> = (0u8..48).collect();
    assert!(t.try_write(&data));
    let back = t.read_up_to(48);
    assert_eq!(back, data);
    // And again, exercising wrap-around of the ring.
    let data2: Vec<u8> = (100u8..160).collect();
    assert!(t.try_write(&data2));
    let back2 = t.read_up_to(60);
    assert_eq!(back2, data2);
}

#[test]
fn reads_preserve_write_order_across_partial_drains() {
    let mut t = Transport::new(32);
    assert!(t.try_write(&[1, 2, 3, 4, 5]));
    assert_eq!(t.read_up_to(2), vec![1, 2]);
    assert!(t.try_write(&[6, 7]));
    assert_eq!(t.read_up_to(10), vec![3, 4, 5, 6, 7]);
}

#[test]
fn overrun_fails_the_write_and_corrupts_nothing() {
    let mut t = Transport::new(8);
    assert!(t.try_write(&[10, 20, 30, 40, 50, 60]));
    // Ten more bytes cannot fit: the write must fail as a whole.
    assert!(!t.try_write(&[0, 1, 2, 3, 4, 5, 6, 7, 8, 9]));
    // The previously queued bytes are untouched, in order.
    assert_eq!(t.read_up_to(8), vec![10, 20, 30, 40, 50, 60]);
}

#[test]
fn engine_overrun_is_reported_as_a_fatal_capture_stop() {
    // The transport takes 0x8000 bytes = 8192 samples.  Without a render
    // context draining it, the ninth cycle of 1024 samples cannot fit.
    let mut engine = Engine::start(160).expect("wavelength in range");
    let input: Vec<i32> = vec![1000; 1024];
    for _ in 0..8 {
        assert_eq!(engine.capture_cycle(&input), CaptureOutcome::Continue);
    }
    assert_eq!(engine.capture_cycle(&input), CaptureOutcome::Stop);
    // The overrun wrote nothing partial: the transport still holds exactly
    // the eight complete cycles, uncorrupted.
    assert_eq!(engine.render_cycle(100_000).len(), 8 * 1024 * 4);
    engine.stop();
}

#[test]
fn underrun_returns_a_bounded_prefix_without_blocking() {
    let mut t = Transport::new(16);
    assert!(t.try_write(&[7, 8, 9]));
    // Asking for far more than is queued returns just what is there.
    let got = t.read_up_to(1000);
    assert_eq!(got, vec![7, 8, 9]);
    // Draining an empty transport yields nothing, and still does not block.
    assert_eq!(t.read_up_to(1000), Vec::<u8>::new());
}

#[test]
fn engine_underrun_is_recoverable() {
    let mut engine = Engine::start(160).expect("wavelength in range");
    // Nothing captured yet: the render context gets an empty best-effort
    // read and carries on.
    assert_eq!(engine.render_cycle(4096), Vec::<u8>::new());
    let input: Vec<i32> = vec![0; 96];
    assert_eq!(engine.capture_cycle(&input), CaptureOutcome::Continue);
    // More than available: exactly the queued bytes come back.
    assert_eq!(engine.render_cycle(100_000).len(), 4 * 96);
    engine.stop();
}
