use moonshot::ticks::{elapsed_ticks, TickStats, TickSummary, SYST_RELOAD};

#[test]
fn ticks_between_two_readings() {
    assert_eq!(elapsed_ticks(100, 30), 70);
    assert_eq!(elapsed_ticks(5, SYST_RELOAD), 6);
    assert_eq!(elapsed_ticks(7, 7), 0);
    // Bits above the 24-bit counter are dropped.
    assert_eq!(elapsed_ticks(0x0100_0005, 5), 0);
}

#[test]
fn equal_updates_are_flat() {
    let mut s = TickStats::new();
    for _ in 0..100 {
        s.record(120);
    }
    assert_eq!(s.summary(), TickSummary::Flat { ticks: 120 });
}

#[test]
fn unequal_updates_report_their_range() {
    let mut s = TickStats::new();
    for t in [130u32, 118, 125, 140, 119] {
        s.record(t);
    }
    assert_eq!((s.min(), s.max()), (118, 140));
    assert_eq!(s.summary(), TickSummary::Variable { min: 118, max: 140, spread: 22 });
}

#[test]
fn empty_stats_start_at_the_extremes() {
    let s = TickStats::new();
    assert_eq!((s.min(), s.max()), (u32::MAX, 0));
}
