use std::collections::VecDeque;
use vstd::prelude::*;

verus! {

/// How many samples each sparkline series keeps.
pub const HISTORY_LEN: usize = 60;

/// The buffer after one capped push: the oldest sample leaves once the
/// buffer already holds `HISTORY_LEN` samples.
pub open spec fn capped_push<T>(buf: Seq<T>, value: T) -> Seq<T> {
    if buf.len() >= HISTORY_LEN {
        buf.drop_first().push(value)
    } else {
        buf.push(value)
    }
}

/// The newest `HISTORY_LEN` samples of `s` (all of `s` when it is shorter).
pub open spec fn last_window<T>(s: Seq<T>) -> Seq<T> {
    if s.len() <= HISTORY_LEN {
        s
    } else {
        s.subrange(s.len() - HISTORY_LEN, s.len() as int)
    }
}

/// Saturating difference of two counters.
pub open spec fn delta(now: u64, before: u64) -> u64 {
    if now >= before {
        (now - before) as u64
    } else {
        0
    }
}

/// Sparkline history plus network rates derived from raw byte counters.
///
/// `S` is the sample type of the two series (percentages on screen).
pub struct MetricsHistory<S> {
    pub cpu_total: VecDeque<S>,
    pub mem_percent: VecDeque<S>,
    prev_net_rx: u64,
    prev_net_tx: u64,
    pub net_rx_rate: u64,
    pub net_tx_rate: u64,
}

impl<S> MetricsHistory<S> {
    /// The CPU series, oldest sample first.
    pub closed spec fn cpu_series(&self) -> Seq<S> {
        self.cpu_total@
    }

    /// The memory series, oldest sample first.
    pub closed spec fn mem_series(&self) -> Seq<S> {
        self.mem_percent@
    }

    /// Current received-bytes rate.
    pub closed spec fn rx_rate(&self) -> u64 {
        self.net_rx_rate
    }

    /// Current transmitted-bytes rate.
    pub closed spec fn tx_rate(&self) -> u64 {
        self.net_tx_rate
    }

    /// Raw received-bytes total seen at the previous push (0 before any).
    pub closed spec fn last_rx_total(&self) -> u64 {
        self.prev_net_rx
    }

    /// Raw transmitted-bytes total seen at the previous push (0 before any).
    pub closed spec fn last_tx_total(&self) -> u64 {
        self.prev_net_tx
    }

    /// Both series hold at most `HISTORY_LEN` samples.
    pub open spec fn wf(&self) -> bool {
        &&& self.cpu_series().len() <= HISTORY_LEN
        &&& self.mem_series().len() <= HISTORY_LEN
    }

    /// An empty history with no rates yet.
    pub fn new() -> (h: Self)
        ensures
            h.cpu_series() == Seq::<S>::empty(),
            h.mem_series() == Seq::<S>::empty(),
            h.last_rx_total() == 0,
            h.last_tx_total() == 0,
            h.rx_rate() == 0,
            h.tx_rate() == 0,
            h.wf(),
    {
        MetricsHistory {
            cpu_total: VecDeque::with_capacity(HISTORY_LEN + 1),
            mem_percent: VecDeque::with_capacity(HISTORY_LEN + 1),
            prev_net_rx: 0,
            prev_net_tx: 0,
            net_rx_rate: 0,
            net_tx_rate: 0,
        }
    }

    /// Record one snapshot: the CPU and memory samples join their series,
    /// and the network rates become the growth of the raw totals since the
    /// previous snapshot (left as they were until a non-zero received
    /// total has been seen).
    pub fn push(&mut self, cpu_total: S, mem_percent: S, net_rx_total: u64, net_tx_total: u64)
        ensures
            final(self).cpu_series() == capped_push(old(self).cpu_series(), cpu_total),
            final(self).mem_series() == capped_push(old(self).mem_series(), mem_percent),
            old(self).last_rx_total() > 0 ==> final(self).rx_rate() == delta(net_rx_total, old(self).last_rx_total()),
            old(self).last_rx_total() > 0 ==> final(self).tx_rate() == delta(net_tx_total, old(self).last_tx_total()),
            old(self).last_rx_total() == 0 ==> final(self).rx_rate() == old(self).rx_rate(),
            old(self).last_rx_total() == 0 ==> final(self).tx_rate() == old(self).tx_rate(),
            final(self).last_rx_total() == net_rx_total,
            final(self).last_tx_total() == net_tx_total,
            old(self).wf() ==> final(self).wf(),
            old(self).last_rx_total() > 0 && net_rx_total >= old(self).last_rx_total()
                ==> final(self).rx_rate() + old(self).last_rx_total() == net_rx_total,
            old(self).last_rx_total() > 0 && net_tx_total >= old(self).last_tx_total()
                ==> final(self).tx_rate() + old(self).last_tx_total() == net_tx_total,
            old(self).last_rx_total() > 0 && net_rx_total < old(self).last_rx_total() ==> final(self).rx_rate() == 0,
            old(self).last_rx_total() > 0 && net_tx_total < old(self).last_tx_total() ==> final(self).tx_rate() == 0,
    {
        push_capped(&mut self.cpu_total, cpu_total);
        push_capped(&mut self.mem_percent, mem_percent);
        if self.prev_net_rx > 0 {
            self.net_rx_rate = net_rx_total.saturating_sub(self.prev_net_rx);
            self.net_tx_rate = net_tx_total.saturating_sub(self.prev_net_tx);
        }
        self.prev_net_rx = net_rx_total;
        self.prev_net_tx = net_tx_total;
    }
}

/// Append `value`, first dropping the oldest sample when the buffer is full.
fn push_capped<T>(buf: &mut VecDeque<T>, value: T)
    ensures
        final(buf)@ == capped_push(old(buf)@, value),
{
    if buf.len() >= HISTORY_LEN {
        buf.pop_front();
    }
    buf.push_back(value);
}

/// A capped push into a buffer that holds at most `HISTORY_LEN` samples
/// keeps exactly the newest `HISTORY_LEN` samples: the window of the
/// window, extended, is the window of the whole extended history.
pub proof fn lemma_capped_push_window<T>(all: Seq<T>, value: T)
    ensures
        capped_push(last_window(all), value) == last_window(all.push(value)),
        last_window(all.push(value)).len() <= HISTORY_LEN,
{
    let w = last_window(all);
    let lhs = capped_push(w, value);
    let rhs = last_window(all.push(value));
    assert(lhs.len() == rhs.len());
    assert forall|i: int| 0 <= i < lhs.len() implies lhs[i] == rhs[i] by {}
    assert(lhs =~= rhs);
}

/// The newest sample is always the last one in the buffer, and the
/// buffer never grows past the cap once within it.
pub proof fn lemma_capped_push_newest<T>(buf: Seq<T>, value: T)
    requires
        buf.len() <= HISTORY_LEN,
    ensures
        capped_push(buf, value).len() <= HISTORY_LEN,
        capped_push(buf, value).last() == value,
        capped_push(buf, value).len() == if buf.len() < HISTORY_LEN { buf.len() + 1 } else { HISTORY_LEN as nat },
{
}

/// A rate is the growth of its counter: added to the previous total it
/// gives the new total, whatever their size; a counter that went
/// backwards (reset) gives a rate of 0.
pub proof fn lemma_delta_is_growth(now: u64, before: u64)
    ensures
        now >= before ==> delta(now, before) + before == now,
        now < before ==> delta(now, before) == 0,
{
}

/// Two pushes from a fresh history: the second push's rates are the
/// growth of the totals between the two pushes whenever the first
/// received total is non-zero and neither total went backwards.
pub proof fn lemma_rates_after_two_pushes(rx1: u64, tx1: u64, rx2: u64, tx2: u64)
    requires
        rx1 > 0,
        rx2 >= rx1,
        tx2 >= tx1,
    ensures
        delta(rx2, rx1) == rx2 - rx1,
        delta(tx2, tx1) == tx2 - tx1,
{
}

} // verus!
