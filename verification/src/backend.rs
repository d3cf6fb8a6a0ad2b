//! One upstream instance and its load/RTT counters, together with the
//! running-mean update rule applied after each completed request.

use vstd::prelude::*;

verus! {

/// Mathematical image of a [`Backend`]: the address as a character sequence
/// and the four counters. Round-trip times are in milliseconds.
pub ghost struct BackendModel {
    pub ip: Seq<char>,
    pub reqs: u64,
    pub count: u64,
    pub rtt: u64,
    pub rtt_mean: u64,
}

/// One upstream instance: its address, the number of in-flight requests
/// routed to it, its lifetime request count, the round-trip time of the most
/// recently completed request, and the running mean of round-trip times.
/// Times are tracked in milliseconds.
pub struct Backend {
    pub ip: String,
    pub reqs: u64,
    pub count: u64,
    pub rtt: u64,
    pub rtt_mean: u64,
}

impl View for Backend {
    type V = BackendModel;

    open spec fn view(&self) -> BackendModel {
        BackendModel {
            ip: self.ip@,
            reqs: self.reqs,
            count: self.count,
            rtt: self.rtt,
            rtt_mean: self.rtt_mean,
        }
    }
}

impl DeepView for Backend {
    type V = BackendModel;

    open spec fn deep_view(&self) -> BackendModel {
        self@
    }
}

impl Clone for Backend {
    fn clone(&self) -> (r: Self)
        ensures
            r@ == self@,
    {
        Backend {
            ip: self.ip.clone(),
            reqs: self.reqs,
            count: self.count,
            rtt: self.rtt,
            rtt_mean: self.rtt_mean,
        }
    }
}

/// One step of the running mean: the mean after `k` samples, given the mean
/// over the first `k - 1` samples and the `k`-th sample `r`. Division is the
/// truncating integer division that the counters use.
pub open spec fn mean_step(mean: int, r: int, k: int) -> int {
    if r >= mean {
        mean + (r - mean) / k
    } else {
        mean - (mean - r) / k
    }
}

/// The running mean over a whole sample sequence: zero when no sample has
/// completed, and otherwise one [`mean_step`] applied to the mean over all
/// but the last sample.
pub open spec fn mean_of(rs: Seq<u64>) -> int
    decreases rs.len(),
{
    if rs.len() == 0 {
        0
    } else {
        mean_step(mean_of(rs.drop_last()), rs.last() as int, rs.len() as int)
    }
}

/// One update step keeps the mean between the old mean and the new sample,
/// so the updated mean always fits in `u64`.
proof fn lemma_mean_step_bounds(mean: int, r: int, k: int)
    requires
        k >= 1,
        mean >= 0,
        r >= 0,
    ensures
        mean_step(mean, r, k) >= 0,
        mean <= r ==> mean <= mean_step(mean, r, k) <= r,
        r <= mean ==> r <= mean_step(mean, r, k) <= mean,
{
    if r >= mean {
        assert((r - mean) / k <= r - mean && (r - mean) / k >= 0) by (nonlinear_arith)
            requires
                k >= 1,
                r - mean >= 0,
        ;
    } else {
        assert((mean - r) / k <= mean - r && (mean - r) / k >= 0) by (nonlinear_arith)
            requires
                k >= 1,
                mean - r >= 0,
        ;
    }
}

impl Backend {
    /// A freshly discovered instance: the given address, all counters zero.
    pub fn new(ip: &str) -> (r: Self)
        ensures
            r@ == (BackendModel { ip: ip@, reqs: 0, count: 0, rtt: 0, rtt_mean: 0 }),
    {
        Backend { ip: ip.to_owned(), reqs: 0, count: 0, rtt: 0, rtt_mean: 0 }
    }

    /// Route one more request to this instance.
    pub fn dispatch(&mut self)
        requires
            old(self).reqs < u64::MAX,
        ensures
            final(self)@ == (BackendModel { reqs: (old(self).reqs + 1) as u64, ..old(self)@ }),
    {
        self.reqs = self.reqs + 1;
    }

    /// A request routed to this instance completed after `rtt` milliseconds:
    /// one request is no longer outstanding, the lifetime count grows by one,
    /// the last round-trip time is recorded, and the running mean advances by
    /// one [`mean_step`].
    pub fn complete(&mut self, rtt: u64)
        requires
            old(self).reqs >= 1,
            old(self).count < u64::MAX,
        ensures
            final(self)@ == (BackendModel {
                ip: old(self).ip@,
                reqs: (old(self).reqs - 1) as u64,
                count: (old(self).count + 1) as u64,
                rtt: rtt,
                rtt_mean: mean_step(
                    old(self).rtt_mean as int,
                    rtt as int,
                    old(self).count + 1,
                ) as u64,
            }),
    {
        self.reqs = self.reqs - 1;
        self.count = self.count + 1;
        self.rtt = rtt;
        proof {
            lemma_mean_step_bounds(self.rtt_mean as int, rtt as int, self.count as int);
        }
        if rtt >= self.rtt_mean {
            let d: u64 = (rtt - self.rtt_mean) / self.count;
            self.rtt_mean = self.rtt_mean + d;
        } else {
            let d: u64 = (self.rtt_mean - rtt) / self.count;
            self.rtt_mean = self.rtt_mean - d;
        }
    }
}

/// For every sample sequence, the running mean obeys the update recurrence:
/// the mean over no samples is zero, and the mean over the first `k` samples
/// is the mean over the first `k - 1` plus `(r_k - mean_{k-1}) / k`, under
/// truncating division.
pub proof fn lemma_mean_recurrence(rs: Seq<u64>, k: int)
    requires
        1 <= k <= rs.len(),
    ensures
        mean_of(Seq::<u64>::empty()) == 0,
        mean_of(rs.take(k)) == mean_step(mean_of(rs.take(k - 1)), rs[k - 1] as int, k),
{
    assert(rs.take(k).drop_last() =~= rs.take(k - 1));
    assert(rs.take(k).last() == rs[k - 1]);
}

} // verus!
