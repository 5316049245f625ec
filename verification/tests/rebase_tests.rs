use rtc_relay::rebase::RebaseState;
use rtc_relay::rebase::ReceiverRebase;

/// A sink joining mid-stream sees a gap-free monotonic native numbering,
/// whatever the virtual numbers are.
#[test]
fn sink_rebase_is_gap_free() {
    let mut rebase = RebaseState::new();
    // The broadcast already sits at virtual sequence 4000; the sink's
    // transport is at native sequence 100, timestamp 900_000.
    let (s0, t0) = rebase.map(4000, 77_000, 100, 900_000);
    assert_eq!(s0, 100);
    assert_eq!(t0, 900_000);
    for k in 1u16..50 {
        let (s, t) = rebase.map(4000 + k, 77_000 + (k as u32) * 960, 700, 1);
        assert_eq!(s, 100 + k);
        assert_eq!(t, 900_000 + (k as u32) * 960);
    }
}

/// The mapping wraps cleanly across the 16-bit sequence boundary.
#[test]
fn sink_rebase_wraps_sequence() {
    let mut rebase = RebaseState::new();
    let (s0, _) = rebase.map(65_534, 0, 65_533, 0);
    assert_eq!(s0, 65_533);
    let (s1, _) = rebase.map(65_535, 10, 0, 0);
    assert_eq!(s1, 65_534);
    let (s2, _) = rebase.map(0, 20, 0, 0);
    assert_eq!(s2, 65_535);
    let (s3, _) = rebase.map(1, 30, 0, 0);
    assert_eq!(s3, 0);
}

/// Gaps in the virtual numbering propagate proportionally.
#[test]
fn sink_rebase_keeps_gaps() {
    let mut rebase = RebaseState::new();
    let (s0, _) = rebase.map(10, 0, 5000, 0);
    assert_eq!(s0, 5000);
    let (s1, _) = rebase.map(15, 0, 0, 0);
    assert_eq!(s1, 5005);
}

/// The receive side pins the first packet of a stream to virtual zero and
/// keeps distances afterwards.
#[test]
fn receiver_rebase_starts_at_zero() {
    let mut rebase = ReceiverRebase::new();
    assert_eq!(rebase.virtualize(4711), 0);
    assert_eq!(rebase.virtualize(4712), 1);
    assert_eq!(rebase.virtualize(4715), 4);
    // wrap of the native space
    let mut rebase = ReceiverRebase::new();
    assert_eq!(rebase.virtualize(65_535), 0);
    assert_eq!(rebase.virtualize(0), 1);
}
