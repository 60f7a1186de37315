use rping::engine::{Action, Event, Outcome, Phase, ProbeEngine, PROBE_INTERVAL};
use rping::icmp::IcmpMessage;

fn reply(seq: u16) -> Vec<u8> {
    let [hi, lo] = seq.to_be_bytes();
    vec![0x00, 0x00, 0x00, 0x00, 0x00, 0x00, hi, lo]
}

fn expect_send(e: &mut ProbeEngine, now: u64, seq: u16) {
    let t = e.step(Event::Tick { now, cancelled: false });
    assert!(t.outcome.is_none());
    match t.action {
        Action::Send { packet } => {
            let m = IcmpMessage::deserialize_packet(&packet).unwrap();
            assert_eq!(m.msg_type(), 8);
            assert_eq!(m.seq_num(), seq);
            assert_eq!(internet_checksum::checksum(&packet), [0, 0]);
        }
        other => panic!("expected a send, got {:?}", other),
    }
    assert_eq!(e.phase(), Phase::Sending { seq });
}

#[test]
fn four_probes_with_the_third_lost() {
    let mut e = ProbeEngine::new(4, 1, false, 0);
    let mut now = 0u64;
    for seq in 1..=4u16 {
        expect_send(&mut e, now, seq);
        let t = e.step(Event::Sent { now });
        assert!(matches!(t.action, Action::Wait { budget: 1_000_000 }));
        if seq == 3 {
            let t = e.step(Event::TimedOut { now: now + 1_000_000 });
            assert_eq!(t.outcome, Some(Outcome::Lost { seq: 3 }));
            assert!(matches!(t.action, Action::Sleep { duration: 0 }));
        } else {
            let t = e.step(Event::Received { now: now + 250, datagram: reply(seq) });
            assert_eq!(t.outcome, Some(Outcome::Replied { seq, rtt: 250 }));
            if seq == 4 {
                assert!(matches!(t.action, Action::Finish));
            } else {
                assert!(matches!(t.action, Action::Sleep { duration: 999_750 }));
            }
        }
        now += PROBE_INTERVAL;
    }
    assert_eq!(e.phase(), Phase::Completed);
    assert_eq!(e.stats().sent(), 4);
    assert_eq!(e.stats().received(), 3);
    assert_eq!(e.stats().packet_loss(), Some(2500));
    assert_eq!(e.stats().rtt_mean(), Some(250));
}

#[test]
fn stray_reply_keeps_waiting_and_is_not_counted() {
    let mut e = ProbeEngine::new(1, 2, false, 0);
    expect_send(&mut e, 0, 1);
    e.step(Event::Sent { now: 100 });
    let t = e.step(Event::Received { now: 600, datagram: reply(9) });
    assert_eq!(t.outcome, None);
    assert!(matches!(t.action, Action::Wait { budget: 1_999_500 }));
    let t = e.step(Event::Received { now: 700, datagram: vec![1, 2, 3] });
    assert_eq!(t.outcome, None);
    assert!(matches!(t.action, Action::Wait { budget: 1_999_400 }));
    assert_eq!(e.stats().received(), 0);
    assert_eq!(e.phase(), Phase::Awaiting { seq: 1, sent_at: 100 });
    let t = e.step(Event::Received { now: 900, datagram: reply(1) });
    assert_eq!(t.outcome, Some(Outcome::Replied { seq: 1, rtt: 800 }));
    assert_eq!(e.stats().received(), 1);
}

#[test]
fn stray_reply_after_the_budget_is_a_loss() {
    let mut e = ProbeEngine::new(2, 1, false, 0);
    expect_send(&mut e, 0, 1);
    e.step(Event::Sent { now: 0 });
    let t = e.step(Event::Received { now: 1_000_000, datagram: reply(7) });
    assert_eq!(t.outcome, Some(Outcome::Lost { seq: 1 }));
    assert!(matches!(t.action, Action::Sleep { duration: 0 }));
    assert_eq!(e.phase(), Phase::Idle);
}

#[test]
fn late_reply_to_a_lost_probe_is_not_matched() {
    let mut e = ProbeEngine::new(2, 1, false, 0);
    expect_send(&mut e, 0, 1);
    e.step(Event::Sent { now: 0 });
    let t = e.step(Event::TimedOut { now: 1_000_000 });
    assert_eq!(t.outcome, Some(Outcome::Lost { seq: 1 }));
    assert_eq!(e.phase(), Phase::Idle);
    expect_send(&mut e, 1_000_000, 2);
    e.step(Event::Sent { now: 1_000_000 });
    let t = e.step(Event::Received { now: 1_000_100, datagram: reply(1) });
    assert_eq!(t.outcome, None);
    assert_eq!(e.stats().received(), 0);
    let t = e.step(Event::Received { now: 1_000_200, datagram: reply(2) });
    assert_eq!(t.outcome, Some(Outcome::Replied { seq: 2, rtt: 200 }));
    assert_eq!(e.stats().sent(), 2);
    assert_eq!(e.stats().received(), 1);
    assert_eq!(e.stats().packet_loss(), Some(5000));
}

#[test]
fn cancellation_stops_before_the_next_probe() {
    let mut e = ProbeEngine::new(5, 1, false, 0);
    expect_send(&mut e, 0, 1);
    e.step(Event::Sent { now: 0 });
    e.step(Event::Received { now: 10, datagram: reply(1) });
    let t = e.step(Event::Tick { now: 1_000_000, cancelled: true });
    assert!(matches!(t.action, Action::Finish));
    assert_eq!(e.phase(), Phase::Cancelled);
    assert_eq!(e.stats().sent(), 1);
    assert_eq!(e.stats().received(), 1);
    assert_eq!(e.stats().packet_loss(), Some(0));
}

#[test]
fn interruption_cancels_and_counts_the_probe_lost() {
    let mut e = ProbeEngine::new(3, 1, false, 0);
    expect_send(&mut e, 0, 1);
    e.step(Event::Sent { now: 0 });
    let t = e.step(Event::Interrupted);
    assert_eq!(t.outcome, Some(Outcome::Lost { seq: 1 }));
    assert!(matches!(t.action, Action::Finish));
    assert_eq!(e.phase(), Phase::Cancelled);
    assert_eq!(e.stats().sent(), 1);
    assert_eq!(e.stats().packet_loss(), Some(10000));
}

#[test]
fn zero_probes_complete_at_once() {
    let mut e = ProbeEngine::new(0, 1, false, 0);
    let t = e.step(Event::Tick { now: 0, cancelled: false });
    assert!(matches!(t.action, Action::Finish));
    assert_eq!(e.phase(), Phase::Completed);
    assert_eq!(e.stats().packet_loss(), None);
}

#[test]
fn unexpected_event_changes_nothing() {
    let mut e = ProbeEngine::new(1, 1, false, 0);
    let t = e.step(Event::Sent { now: 0 });
    assert!(matches!(t.action, Action::Finish));
    assert_eq!(e.phase(), Phase::Idle);
    assert_eq!(e.stats().sent(), 0);
}

#[test]
fn replies_behind_an_ip_header_are_matched() {
    let mut e = ProbeEngine::new(1, u64::MAX, true, 0);
    expect_send(&mut e, 0, 1);
    let t = e.step(Event::Sent { now: 0 });
    assert!(matches!(t.action, Action::Wait { budget: u64::MAX }));
    let short = e.step(Event::Received { now: 5, datagram: vec![0x46u8; 12] });
    assert_eq!(short.outcome, None);
    let mut datagram = vec![0x45u8];
    datagram.extend_from_slice(&[0u8; 19]);
    datagram.extend_from_slice(&reply(1));
    let t = e.step(Event::Received { now: 9, datagram });
    assert_eq!(t.outcome, Some(Outcome::Replied { seq: 1, rtt: 9 }));
    assert!(matches!(t.action, Action::Finish));
}
