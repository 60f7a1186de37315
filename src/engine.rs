//! The probe engine: the decisions of a ping run as a state machine.
//!
//! The engine performs no I/O. Its driver performs each [`Action`] (send a
//! packet, wait for a datagram, sleep) and hands back what happened as an
//! [`Event`], with the time read from a monotonic clock in microseconds. Probes
//! go out strictly one after another, so at most one request is outstanding.
use vstd::prelude::*;

use crate::icmp::{decode, IcmpMessage, IcmpMessageView, ECHO_REQUEST};
use crate::ip::{holds_ip_header, ip_header_len, strip_ip_header};
use crate::stats::{lemma_loss_at_most_all, loss_basis_points, Stats, StatsView};

verus! {

/// Pacing interval between the starts of successive probes, in microseconds.
pub const PROBE_INTERVAL: u64 = 1_000_000;

/// Microseconds in a second.
pub const MICROS_PER_SEC: u64 = 1_000_000;

/// Where the run stands.
#[derive(Debug, Clone, Copy, PartialEq, Eq, Structural)]
pub enum Phase {
    /// Before the first probe or between two probes: waiting for a tick.
    Idle,
    /// The request with this sequence number was handed out to be sent.
    Sending { seq: u16 },
    /// The request with this sequence number went out at `sent_at` and is
    /// the one outstanding request.
    Awaiting { seq: u16, sent_at: u64 },
    /// Every requested probe has its outcome.
    Completed,
    /// The run was cancelled.
    Cancelled,
}

/// What the driver reports back.
#[derive(Debug)]
pub enum Event {
    /// The engine may go on: at the start of the run and after each pacing
    /// sleep. `cancelled` tells whether cancellation was requested.
    Tick { now: u64, cancelled: bool },
    /// The request handed out last was sent.
    Sent { now: u64 },
    /// A datagram arrived while waiting for a reply.
    Received { now: u64, datagram: Vec<u8> },
    /// The wait ended with nothing to read.
    TimedOut { now: u64 },
    /// The wait was interrupted by a signal.
    Interrupted,
}

/// What the driver is asked to do next.
#[derive(Debug)]
pub enum Action {
    /// Send these bytes to the destination.
    Send { packet: Vec<u8> },
    /// Wait up to `budget` microseconds for a datagram and read it.
    Wait { budget: u64 },
    /// Sleep for `duration` microseconds, then tick.
    Sleep { duration: u64 },
    /// The run is over.
    Finish,
}

/// The terminal outcome of one probe.
#[derive(Debug, Clone, Copy, PartialEq, Eq, Structural)]
pub enum Outcome {
    /// The reply came after `rtt` microseconds.
    Replied { seq: u16, rtt: u64 },
    /// No reply came in time.
    Lost { seq: u16 },
}

/// The result of one step: the outcome of a probe, if one was settled, and
/// the next action.
#[derive(Debug)]
pub struct Transition {
    pub outcome: Option<Outcome>,
    pub action: Action,
}

/// The mathematical content of an [`Event`].
pub enum EventView {
    Tick { now: u64, cancelled: bool },
    Sent { now: u64 },
    Received { now: u64, datagram: Seq<u8> },
    TimedOut { now: u64 },
    Interrupted,
}

/// The mathematical content of an [`Action`].
pub enum ActionView {
    Send { packet: Seq<u8> },
    Wait { budget: u64 },
    Sleep { duration: u64 },
    Finish,
}

/// The mathematical content of a [`Transition`].
pub struct TransitionView {
    pub outcome: Option<Outcome>,
    pub action: ActionView,
}

impl View for Event {
    type V = EventView;

    open spec fn view(&self) -> EventView {
        match self {
            Event::Tick { now, cancelled } => EventView::Tick { now: *now, cancelled: *cancelled },
            Event::Sent { now } => EventView::Sent { now: *now },
            Event::Received { now, datagram } => EventView::Received {
                now: *now,
                datagram: datagram@,
            },
            Event::TimedOut { now } => EventView::TimedOut { now: *now },
            Event::Interrupted => EventView::Interrupted,
        }
    }
}

impl View for Action {
    type V = ActionView;

    open spec fn view(&self) -> ActionView {
        match self {
            Action::Send { packet } => ActionView::Send { packet: packet@ },
            Action::Wait { budget } => ActionView::Wait { budget: *budget },
            Action::Sleep { duration } => ActionView::Sleep { duration: *duration },
            Action::Finish => ActionView::Finish,
        }
    }
}

impl View for Transition {
    type V = TransitionView;

    open spec fn view(&self) -> TransitionView {
        TransitionView { outcome: self.outcome, action: self.action@ }
    }
}

/// Time from `since` to `now`; a reading earlier than `since` counts as none.
pub open spec fn elapsed(now: u64, since: u64) -> u64 {
    if now >= since {
        (now - since) as u64
    } else {
        0
    }
}

/// A timeout in seconds as microseconds, saturating at the largest `u64`.
pub open spec fn timeout_micros(secs: u64) -> u64 {
    if secs * MICROS_PER_SEC > u64::MAX {
        u64::MAX
    } else {
        (secs * MICROS_PER_SEC) as u64
    }
}

/// The Echo Request sent for sequence number `seq`, created at `now`.
pub open spec fn request(seq: u16, now: u64) -> IcmpMessageView {
    IcmpMessageView {
        msg_type: ECHO_REQUEST,
        code: 0,
        checksum: 0,
        identifier: 0,
        seq_num: seq,
        data: None,
        timestamp: now,
    }
}

/// The sequence number that a received datagram carries, if it holds an ICMP
/// message at all. With `ip_header`, the datagram starts with an IPv4 header.
pub open spec fn reply_seq(ip_header: bool, datagram: Seq<u8>) -> Option<u16> {
    if ip_header && !holds_ip_header(datagram) {
        None
    } else {
        let icmp = if ip_header {
            datagram.subrange(ip_header_len(datagram) as int, datagram.len() as int)
        } else {
            datagram
        };
        match decode(icmp) {
            Ok(m) => Some(m.seq_num),
            Err(_) => None,
        }
    }
}

/// The mathematical content of a [`ProbeEngine`].
pub struct EngineView {
    /// Number of probes requested.
    pub count: u16,
    /// Per-probe wait budget, in microseconds.
    pub timeout: u64,
    /// Whether received datagrams start with an IPv4 header.
    pub ip_header: bool,
    /// Number of probes started; the last one has this sequence number.
    pub started: u16,
    pub phase: Phase,
    pub stats: StatsView,
}

impl EngineView {
    /// The state of a fresh run.
    pub open spec fn initial(count: u16, timeout: u64, ip_header: bool, start: u64) -> EngineView {
        EngineView {
            count,
            timeout,
            ip_header,
            started: 0,
            phase: Phase::Idle,
            stats: StatsView { sent: 0, received: 0, rtts: Seq::empty(), start },
        }
    }

    /// The outstanding request table: the sequence number and send time of
    /// the request awaiting its reply, if any.
    pub open spec fn outstanding(self) -> Option<(u16, u64)> {
        match self.phase {
            Phase::Awaiting { seq, sent_at } => Some((seq, sent_at)),
            _ => None,
        }
    }

    /// Probes sent whose outcome was a loss.
    pub open spec fn lost(self) -> int {
        self.stats.sent - self.stats.received - if self.outstanding() is Some {
            1int
        } else {
            0int
        }
    }

    /// The state invariant: every probe started has been sent, save the one
    /// being sent; at most the outstanding one lacks an outcome; no more
    /// replies than probes.
    pub open spec fn wf(self) -> bool {
        &&& self.started <= self.count
        &&& self.stats.rtts.len() == self.stats.received
        &&& self.stats.received <= self.stats.sent
        &&& match self.phase {
            Phase::Idle => self.stats.sent == self.started,
            Phase::Sending { seq } => seq == self.started && seq >= 1 && self.stats.sent + 1
                == self.started,
            Phase::Awaiting { seq, sent_at } => seq == self.started && seq >= 1 && self.stats.sent
                == self.started && self.stats.received < self.stats.sent,
            Phase::Completed => self.started == self.count && self.stats.sent == self.started,
            Phase::Cancelled => self.stats.sent == self.started,
        }
    }

    /// What an event that the current phase does not expect gives: nothing
    /// changes, and the driver is told to stop.
    pub open spec fn unexpected(self) -> (EngineView, TransitionView) {
        (self, TransitionView { outcome: None, action: ActionView::Finish })
    }

    /// A probe that went out at `sent_at` has its outcome at `now`: the run is
    /// complete after the last probe; otherwise the driver sleeps out the rest
    /// of the pacing interval.
    pub open spec fn finish_probe(self, now: u64, sent_at: u64, outcome: Outcome) -> (
        EngineView,
        TransitionView,
    ) {
        if self.started == self.count {
            (
                EngineView { phase: Phase::Completed, ..self },
                TransitionView { outcome: Some(outcome), action: ActionView::Finish },
            )
        } else {
            let spent = elapsed(now, sent_at);
            let rest = if spent < PROBE_INTERVAL {
                (PROBE_INTERVAL - spent) as u64
            } else {
                0
            };
            (
                EngineView { phase: Phase::Idle, ..self },
                TransitionView {
                    outcome: Some(outcome),
                    action: ActionView::Sleep { duration: rest },
                },
            )
        }
    }

    /// A tick: stop when cancelled or when every probe is done, else hand out
    /// the next request.
    pub open spec fn on_tick(self, now: u64, cancelled: bool) -> (EngineView, TransitionView) {
        if cancelled {
            (
                EngineView { phase: Phase::Cancelled, ..self },
                TransitionView { outcome: None, action: ActionView::Finish },
            )
        } else if self.started == self.count {
            (
                EngineView { phase: Phase::Completed, ..self },
                TransitionView { outcome: None, action: ActionView::Finish },
            )
        } else {
            let seq = (self.started + 1) as u16;
            (
                EngineView { started: seq, phase: Phase::Sending { seq }, ..self },
                TransitionView {
                    outcome: None,
                    action: ActionView::Send { packet: request(seq, now).encode() },
                },
            )
        }
    }

    /// A datagram arrived while request `seq`, sent at `sent_at`, waits. A
    /// reply to it settles the probe; anything else is dropped, and the wait
    /// goes on with what is left of the budget.
    pub open spec fn on_received(self, seq: u16, sent_at: u64, now: u64, datagram: Seq<u8>) -> (
        EngineView,
        TransitionView,
    ) {
        let spent = elapsed(now, sent_at);
        if reply_seq(self.ip_header, datagram) == Some(seq) {
            let stats = StatsView {
                received: self.stats.received + 1,
                rtts: self.stats.rtts.push(spent),
                ..self.stats
            };
            EngineView { stats, ..self }.finish_probe(
                now,
                sent_at,
                Outcome::Replied { seq, rtt: spent },
            )
        } else if spent < self.timeout {
            (
                self,
                TransitionView {
                    outcome: None,
                    action: ActionView::Wait { budget: (self.timeout - spent) as u64 },
                },
            )
        } else {
            self.finish_probe(now, sent_at, Outcome::Lost { seq })
        }
    }

    /// One step of the run.
    pub open spec fn next(self, e: EventView) -> (EngineView, TransitionView) {
        match self.phase {
            Phase::Idle => match e {
                EventView::Tick { now, cancelled } => self.on_tick(now, cancelled),
                _ => self.unexpected(),
            },
            Phase::Sending { seq } => match e {
                EventView::Sent { now } => (
                    EngineView {
                        phase: Phase::Awaiting { seq, sent_at: now },
                        stats: StatsView { sent: self.stats.sent + 1, ..self.stats },
                        ..self
                    },
                    TransitionView {
                        outcome: None,
                        action: ActionView::Wait { budget: self.timeout },
                    },
                ),
                _ => self.unexpected(),
            },
            Phase::Awaiting { seq, sent_at } => match e {
                EventView::Received { now, datagram } => self.on_received(
                    seq,
                    sent_at,
                    now,
                    datagram,
                ),
                EventView::TimedOut { now } => self.finish_probe(
                    now,
                    sent_at,
                    Outcome::Lost { seq },
                ),
                EventView::Interrupted => (
                    EngineView { phase: Phase::Cancelled, ..self },
                    TransitionView { outcome: Some(Outcome::Lost { seq }), action: ActionView::Finish },
                ),
                _ => self.unexpected(),
            },
            _ => self.unexpected(),
        }
    }
}

/// The state after a sequence of events.
pub open spec fn run(s: EngineView, events: Seq<EventView>) -> EngineView
    decreases events.len(),
{
    if events.len() == 0 {
        s
    } else {
        run(s.next(events[0]).0, events.drop_first())
    }
}

/// Every step keeps the state invariant.
pub proof fn lemma_next_keeps_wf(s: EngineView, e: EventView)
    requires
        s.wf(),
    ensures
        s.next(e).0.wf(),
{
}

/// Whatever happens in a run of `count` probes, cancelled at any point or
/// not: no more than `count` probes are sent, no more replies are counted than
/// probes sent, and the loss lies between zero and one hundred percent.
pub proof fn lemma_run_counts(
    count: u16,
    timeout: u64,
    ip_header: bool,
    start: u64,
    events: Seq<EventView>,
)
    ensures
        ({
            let t = run(EngineView::initial(count, timeout, ip_header, start), events);
            &&& t.stats.sent <= count
            &&& t.stats.received <= t.stats.sent
            &&& t.stats.sent > 0 ==> loss_basis_points(t.stats.sent, t.stats.received) <= 10000
        }),
{
    lemma_run_keeps_wf(EngineView::initial(count, timeout, ip_header, start), events);
    let t = run(EngineView::initial(count, timeout, ip_header, start), events);
    if t.stats.sent > 0 {
        lemma_loss_at_most_all(t.stats.sent, t.stats.received);
    }
}

/// A run from a well-formed state ends in a well-formed state with the same
/// number of probes requested.
pub proof fn lemma_run_keeps_wf(s: EngineView, events: Seq<EventView>)
    requires
        s.wf(),
    ensures
        run(s, events).wf(),
        run(s, events).count == s.count,
    decreases events.len(),
{
    if events.len() > 0 {
        lemma_next_keeps_wf(s, events[0]);
        lemma_run_keeps_wf(s.next(events[0]).0, events.drop_first());
    }
}

/// A datagram that does not answer the outstanding request, arriving within
/// the budget, ends nothing: the state, statistics included, stays as it was,
/// and the wait goes on with the rest of the budget.
pub proof fn lemma_stray_datagram_ignored(s: EngineView, now: u64, datagram: Seq<u8>)
    requires
        s.wf(),
        s.outstanding() matches Some((seq, sent_at)) && reply_seq(s.ip_header, datagram) != Some(
            seq,
        ) && elapsed(now, sent_at) < s.timeout,
    ensures
        ({
            let (seq, sent_at) = s.outstanding()->Some_0;
            s.next(EventView::Received { now, datagram }) == (s, TransitionView {
                outcome: None,
                action: ActionView::Wait { budget: (s.timeout - elapsed(now, sent_at)) as u64 },
            })
        }),
{
}

/// A probe whose budget runs out is one loss: the counts stay, the loss count
/// grows by one, and the outstanding table is left empty, so a late reply to
/// it changes nothing. While probes remain, the next tick without
/// cancellation hands out the request with the next sequence number.
pub proof fn lemma_timeout_is_one_loss(s: EngineView, now: u64, later: u64, datagram: Seq<u8>)
    requires
        s.wf(),
        s.outstanding() is Some,
    ensures
        ({
            let (seq, sent_at) = s.outstanding()->Some_0;
            let (t, r) = s.next(EventView::TimedOut { now });
            &&& r.outcome == Some(Outcome::Lost { seq })
            &&& t.outstanding() is None
            &&& t.stats == s.stats
            &&& t.lost() == s.lost() + 1
            &&& t.next(EventView::Received { now: later, datagram }).0.stats == t.stats
            &&& s.started < s.count ==> t.next(EventView::Tick { now: later, cancelled: false }).1
                == (TransitionView {
                outcome: None,
                action: ActionView::Send { packet: request((seq + 1) as u16, later).encode() },
            })
        }),
{
}

/// The engine of one run.
#[derive(Debug)]
pub struct ProbeEngine {
    count: u16,
    timeout: u64,
    ip_header: bool,
    started: u16,
    phase: Phase,
    stats: Stats,
}

impl View for ProbeEngine {
    type V = EngineView;

    closed spec fn view(&self) -> EngineView {
        EngineView {
            count: self.count,
            timeout: self.timeout,
            ip_header: self.ip_header,
            started: self.started,
            phase: self.phase,
            stats: self.stats@,
        }
    }
}

/// The bytes of the Echo Request for `seq`, created at `now`.
fn request_packet(seq: u16, now: u64) -> (r: Vec<u8>)
    ensures
        r@ == request(seq, now).encode(),
{
    let msg = IcmpMessage::new_request(seq, None, now);
    let mut packet: Vec<u8> = vec![0u8; 8];
    let written = msg.serialize_packet(packet.as_mut_slice());
    assert(written is Ok);
    assert(packet@ =~= request(seq, now).encode());
    packet
}

/// The sequence number carried by a received datagram, if any.
fn datagram_seq(ip_header: bool, datagram: &[u8]) -> (r: Option<u16>)
    ensures
        r == reply_seq(ip_header, datagram@),
{
    let icmp = if ip_header {
        match strip_ip_header(datagram) {
            Some(p) => p,
            None => return None,
        }
    } else {
        datagram
    };
    match IcmpMessage::deserialize_packet(icmp) {
        Ok(m) => Some(m.seq_num()),
        Err(_) => None,
    }
}

impl ProbeEngine {
    /// The state invariant.
    pub open spec fn wf(&self) -> bool {
        self@.wf()
    }

    /// A run of `count` probes, each waiting up to `timeout_secs` seconds for
    /// its reply, begun at `start`. With `ip_header`, received datagrams start
    /// with an IPv4 header.
    pub fn new(count: u16, timeout_secs: u64, ip_header: bool, start: u64) -> (r: Self)
        ensures
            r.wf(),
            r@ == EngineView::initial(count, timeout_micros(timeout_secs), ip_header, start),
    {
        let timeout = if timeout_secs > u64::MAX / MICROS_PER_SEC {
            u64::MAX
        } else {
            timeout_secs * MICROS_PER_SEC
        };
        ProbeEngine {
            count,
            timeout,
            ip_header,
            started: 0,
            phase: Phase::Idle,
            stats: Stats::new(start),
        }
    }

    /// The statistics gathered so far.
    pub fn stats(&self) -> (r: &Stats)
        ensures
            r@ == self@.stats,
    {
        &self.stats
    }

    /// Where the run stands.
    pub fn phase(&self) -> (r: Phase)
        ensures
            r == self@.phase,
    {
        self.phase
    }

    /// Settles the probe sent at `sent_at` and decides what follows it.
    fn finish_probe(&mut self, now: u64, sent_at: u64, outcome: Outcome) -> (r: Transition)
        requires
            old(self)@.started <= old(self)@.count,
            old(self)@.stats.rtts.len() == old(self)@.stats.received,
            old(self)@.stats.received <= old(self)@.stats.sent,
            old(self)@.stats.sent == old(self)@.started,
        ensures
            final(self).wf(),
            (final(self)@, r@) == old(self)@.finish_probe(now, sent_at, outcome),
    {
        if self.started == self.count {
            self.phase = Phase::Completed;
            return Transition { outcome: Some(outcome), action: Action::Finish };
        }
        let spent = if now >= sent_at {
            now - sent_at
        } else {
            0
        };
        let rest = if spent < PROBE_INTERVAL {
            PROBE_INTERVAL - spent
        } else {
            0
        };
        self.phase = Phase::Idle;
        Transition { outcome: Some(outcome), action: Action::Sleep { duration: rest } }
    }

    /// Takes one event and says what to do next.
    pub fn step(&mut self, event: Event) -> (r: Transition)
        requires
            old(self).wf(),
        ensures
            final(self).wf(),
            (final(self)@, r@) == old(self)@.next(event@),
    {
        let unexpected = Transition { outcome: None, action: Action::Finish };
        match self.phase {
            Phase::Idle => match event {
                Event::Tick { now, cancelled } => {
                    if cancelled {
                        self.phase = Phase::Cancelled;
                        return Transition { outcome: None, action: Action::Finish };
                    }
                    if self.started == self.count {
                        self.phase = Phase::Completed;
                        return Transition { outcome: None, action: Action::Finish };
                    }
                    let seq = self.started + 1;
                    self.started = seq;
                    self.phase = Phase::Sending { seq };
                    Transition { outcome: None, action: Action::Send { packet: request_packet(seq, now) } }
                },
                _ => unexpected,
            },
            Phase::Sending { seq } => match event {
                Event::Sent { now } => {
                    self.stats.send();
                    self.phase = Phase::Awaiting { seq, sent_at: now };
                    Transition { outcome: None, action: Action::Wait { budget: self.timeout } }
                },
                _ => unexpected,
            },
            Phase::Awaiting { seq, sent_at } => match event {
                Event::Received { now, datagram } => {
                    let spent = if now >= sent_at {
                        now - sent_at
                    } else {
                        0
                    };
                    if datagram_seq(self.ip_header, datagram.as_slice()) == Some(seq) {
                        self.stats.recv(spent);
                        self.finish_probe(now, sent_at, Outcome::Replied { seq, rtt: spent })
                    } else if spent < self.timeout {
                        Transition { outcome: None, action: Action::Wait { budget: self.timeout - spent } }
                    } else {
                        self.finish_probe(now, sent_at, Outcome::Lost { seq })
                    }
                },
                Event::TimedOut { now } => self.finish_probe(now, sent_at, Outcome::Lost { seq }),
                Event::Interrupted => {
                    self.phase = Phase::Cancelled;
                    Transition { outcome: Some(Outcome::Lost { seq }), action: Action::Finish }
                },
                _ => unexpected,
            },
            _ => unexpected,
        }
    }
}

} // verus!
