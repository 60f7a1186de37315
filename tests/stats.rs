use rping::stats::Stats;

#[test]
fn empty_stats_have_no_loss_or_rtt() {
    let s = Stats::new(42);
    assert_eq!(s.sent(), 0);
    assert_eq!(s.received(), 0);
    assert_eq!(s.start(), 42);
    assert_eq!(s.packet_loss(), None);
    assert_eq!(s.rtt_min(), None);
    assert_eq!(s.rtt_max(), None);
    assert_eq!(s.rtt_mean(), None);
}

#[test]
fn loss_and_rtt_figures() {
    let mut s = Stats::new(0);
    for _ in 0..4 {
        s.send();
    }
    s.recv(1500);
    s.recv(700);
    s.recv(2001);
    assert_eq!(s.sent(), 4);
    assert_eq!(s.received(), 3);
    assert_eq!(s.packet_loss(), Some(2500));
    assert_eq!(s.rtt_min(), Some(700));
    assert_eq!(s.rtt_max(), Some(2001));
    assert_eq!(s.rtt_mean(), Some(1400));
}

#[test]
fn loss_rounds_down_and_spans_zero_to_all() {
    let mut s = Stats::new(0);
    for _ in 0..3 {
        s.send();
    }
    assert_eq!(s.packet_loss(), Some(10000));
    s.recv(1);
    assert_eq!(s.packet_loss(), Some(6666));
    s.recv(1);
    s.recv(1);
    assert_eq!(s.packet_loss(), Some(0));
}

#[test]
fn mean_of_large_samples_does_not_overflow() {
    let mut s = Stats::new(0);
    s.send();
    s.send();
    s.recv(u64::MAX);
    s.recv(u64::MAX - 2);
    assert_eq!(s.rtt_mean(), Some(u64::MAX - 1));
    assert_eq!(s.rtt_min(), Some(u64::MAX - 2));
    assert_eq!(s.rtt_max(), Some(u64::MAX));
}
