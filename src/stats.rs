//! Round-trip statistics: how many probes went out, how many came back, and
//! the round-trip time of each reply.
use vstd::prelude::*;

verus! {

/// Sent and received counts and round-trip samples of one run. Times are in
/// microseconds; `start` is the caller's clock reading when the run began.
#[derive(Debug)]
pub struct Stats {
    rtts: Vec<u64>,
    num_sent: usize,
    num_rcvd: usize,
    start: u64,
}

/// The mathematical content of [`Stats`].
pub struct StatsView {
    pub sent: nat,
    pub received: nat,
    /// Round-trip times in the order the replies came.
    pub rtts: Seq<u64>,
    pub start: u64,
}

impl View for Stats {
    type V = StatsView;

    closed spec fn view(&self) -> StatsView {
        StatsView {
            sent: self.num_sent as nat,
            received: self.num_rcvd as nat,
            rtts: self.rtts@,
            start: self.start,
        }
    }
}

/// Loss in hundredths of a percent, rounded down: `(1 - received / sent) * 100`
/// percent for `sent > 0`; a run with more replies than probes counts no loss.
pub open spec fn loss_basis_points(sent: nat, received: nat) -> nat {
    if received >= sent {
        0
    } else {
        (sent - received) as nat * 10000 / sent
    }
}

/// Sum of the samples.
pub open spec fn sum_of(s: Seq<u64>) -> nat
    decreases s.len(),
{
    if s.len() == 0 {
        0
    } else {
        sum_of(s.drop_last()) + s.last() as nat
    }
}

/// `m` is the least of the samples.
pub open spec fn is_min_of(m: u64, s: Seq<u64>) -> bool {
    s.contains(m) && forall|i: int| 0 <= i < s.len() ==> m <= #[trigger] s[i]
}

/// `m` is the greatest of the samples.
pub open spec fn is_max_of(m: u64, s: Seq<u64>) -> bool {
    s.contains(m) && forall|i: int| 0 <= i < s.len() ==> #[trigger] s[i] <= m
}

/// The loss never exceeds one hundred percent.
pub proof fn lemma_loss_at_most_all(sent: nat, received: nat)
    requires
        sent > 0,
    ensures
        loss_basis_points(sent, received) <= 10000,
{
    if received < sent {
        let a = (sent - received) as nat;
        assert(a * 10000 / sent <= 10000) by (nonlinear_arith)
            requires
                a <= sent,
                sent > 0,
        ;
    }
}

proof fn lemma_sum_bound(s: Seq<u64>)
    ensures
        sum_of(s) <= s.len() * 0xFFFF_FFFF_FFFF_FFFF,
    decreases s.len(),
{
    if s.len() > 0 {
        lemma_sum_bound(s.drop_last());
        assert(sum_of(s) <= s.len() * 0xFFFF_FFFF_FFFF_FFFF) by (nonlinear_arith)
            requires
                sum_of(s) == sum_of(s.drop_last()) + s.last(),
                sum_of(s.drop_last()) <= (s.len() - 1) * 0xFFFF_FFFF_FFFF_FFFF,
                s.last() <= 0xFFFF_FFFF_FFFF_FFFF,
        ;
    }
}

impl Stats {
    /// The counts agree with the samples kept.
    pub open spec fn wf(&self) -> bool {
        self@.rtts.len() == self@.received
    }

    /// An empty record of a run that began at `start`.
    pub fn new(start: u64) -> (r: Self)
        ensures
            r.wf(),
            r@ == (StatsView { sent: 0, received: 0, rtts: Seq::empty(), start }),
    {
        Stats { rtts: Vec::new(), num_sent: 0, num_rcvd: 0, start }
    }

    /// Counts one more probe sent.
    pub fn send(&mut self)
        requires
            old(self).wf(),
            old(self)@.sent < usize::MAX,
        ensures
            final(self).wf(),
            final(self)@ == (StatsView { sent: old(self)@.sent + 1, ..old(self)@ }),
    {
        self.num_sent += 1;
    }

    /// Counts one more reply, which took `rtt` microseconds.
    pub fn recv(&mut self, rtt: u64)
        requires
            old(self).wf(),
            old(self)@.received < usize::MAX,
        ensures
            final(self).wf(),
            final(self)@ == (StatsView {
                received: old(self)@.received + 1,
                rtts: old(self)@.rtts.push(rtt),
                ..old(self)@
            }),
    {
        self.num_rcvd += 1;
        self.rtts.push(rtt);
    }

    /// Number of probes sent.
    pub fn sent(&self) -> (r: usize)
        ensures
            r == self@.sent,
    {
        self.num_sent
    }

    /// Number of replies received.
    pub fn received(&self) -> (r: usize)
        ensures
            r == self@.received,
    {
        self.num_rcvd
    }

    /// When the run began.
    pub fn start(&self) -> (r: u64)
        ensures
            r == self@.start,
    {
        self.start
    }

    /// Packet loss in hundredths of a percent, rounded down; `None` before
    /// any probe was sent.
    pub fn packet_loss(&self) -> (r: Option<u64>)
        ensures
            r is None <==> self@.sent == 0,
            r matches Some(l) ==> l == loss_basis_points(self@.sent, self@.received) && l <= 10000,
    {
        if self.num_sent == 0 {
            return None;
        }
        proof {
            lemma_loss_at_most_all(self@.sent, self@.received);
        }
        if self.num_rcvd >= self.num_sent {
            return Some(0);
        }
        let lost = (self.num_sent - self.num_rcvd) as u128;
        let loss = lost * 10000 / (self.num_sent as u128);
        Some(loss as u64)
    }

    /// The shortest round-trip time; `None` when no reply came.
    pub fn rtt_min(&self) -> (r: Option<u64>)
        ensures
            r is None <==> self@.rtts.len() == 0,
            r matches Some(m) ==> is_min_of(m, self@.rtts),
    {
        if self.rtts.len() == 0 {
            return None;
        }
        let mut m = self.rtts[0];
        let mut k: usize = 0;
        let mut i: usize = 1;
        while i < self.rtts.len()
            invariant
                1 <= i <= self.rtts@.len(),
                k < i,
                m == self.rtts@[k as int],
                forall|j: int| 0 <= j < i ==> m <= #[trigger] self.rtts@[j],
            decreases self.rtts@.len() - i,
        {
            if self.rtts[i] < m {
                m = self.rtts[i];
                k = i;
            }
            i += 1;
        }
        assert(self@.rtts.contains(m)) by {
            assert(self@.rtts[k as int] == m);
        }
        Some(m)
    }

    /// The longest round-trip time; `None` when no reply came.
    pub fn rtt_max(&self) -> (r: Option<u64>)
        ensures
            r is None <==> self@.rtts.len() == 0,
            r matches Some(m) ==> is_max_of(m, self@.rtts),
    {
        if self.rtts.len() == 0 {
            return None;
        }
        let mut m = self.rtts[0];
        let mut k: usize = 0;
        let mut i: usize = 1;
        while i < self.rtts.len()
            invariant
                1 <= i <= self.rtts@.len(),
                k < i,
                m == self.rtts@[k as int],
                forall|j: int| 0 <= j < i ==> #[trigger] self.rtts@[j] <= m,
            decreases self.rtts@.len() - i,
        {
            if self.rtts[i] > m {
                m = self.rtts[i];
                k = i;
            }
            i += 1;
        }
        assert(self@.rtts.contains(m)) by {
            assert(self@.rtts[k as int] == m);
        }
        Some(m)
    }

    /// The arithmetic mean of the round-trip times, rounded down to the
    /// microsecond; `None` when no reply came.
    pub fn rtt_mean(&self) -> (r: Option<u64>)
        ensures
            r is None <==> self@.rtts.len() == 0,
            r matches Some(m) ==> m == sum_of(self@.rtts) / self@.rtts.len(),
    {
        let n = self.rtts.len();
        if n == 0 {
            return None;
        }
        let mut total: u128 = 0;
        let mut i: usize = 0;
        while i < n
            invariant
                n == self.rtts@.len(),
                i <= n,
                total == sum_of(self.rtts@.subrange(0, i as int)),
            decreases n - i,
        {
            proof {
                let p = self.rtts@.subrange(0, i as int + 1);
                assert(p.drop_last() =~= self.rtts@.subrange(0, i as int));
                lemma_sum_bound(p);
                assert(p.len() * 0xFFFF_FFFF_FFFF_FFFF < 0x1_0000_0000_0000_0000_0000_0000_0000_0000) by (nonlinear_arith)
                    requires
                        p.len() <= usize::MAX,
                ;
            }
            total = total + self.rtts[i] as u128;
            i += 1;
        }
        proof {
            assert(self.rtts@.subrange(0, n as int) =~= self.rtts@);
            lemma_sum_bound(self.rtts@);
            let s = sum_of(self.rtts@);
            assert(s / (n as nat) <= 0xFFFF_FFFF_FFFF_FFFF) by (nonlinear_arith)
                requires
                    s <= n * 0xFFFF_FFFF_FFFF_FFFF,
                    n > 0,
            ;
        }
        Some((total / (n as u128)) as u64)
    }
}

} // verus!
