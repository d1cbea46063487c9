//! The statistics of a run: how many requests were made and served, how
//! long they waited, and how many were served lately.

use vstd::prelude::*;

verus! {

/// The length of the sliding window over which throughput is measured, in
/// milliseconds.
pub const THROUGHPUT_WINDOW_MS: u64 = 10_000;

/// Whether a completion at `completed_at` still counts at time `now`: it
/// is no older than the window.
pub open spec fn is_recent(completed_at: u64, now: u64) -> bool {
    completed_at + THROUGHPUT_WINDOW_MS >= now
}

/// The test that keeps the completions that still count at time `now`.
pub open spec fn recent_at(now: u64) -> spec_fn(u64) -> bool {
    |completed_at: u64| is_recent(completed_at, now)
}

/// How long a request made at `created_at` has been in the system at
/// `now`, in milliseconds.
pub open spec fn wait_time(created_at: u64, now: u64) -> nat {
    if now >= created_at {
        (now - created_at) as nat
    } else {
        0
    }
}

/// Computes [`wait_time`].
pub fn wait_time_ms(created_at: u64, now: u64) -> (millis: u64)
    ensures
        millis == wait_time(created_at, now),
{
    if now >= created_at {
        now - created_at
    } else {
        0
    }
}

/// The mathematical content of a [`SystemStats`].
pub struct SystemStatsView {
    pub total_requests: nat,
    pub processed_requests: nat,
    pub total_wait_time: nat,
    pub throughput_window: Seq<u64>,
}

impl SystemStatsView {
    /// The statistics of a run in which nothing has happened yet.
    pub open spec fn empty() -> SystemStatsView {
        SystemStatsView {
            total_requests: 0,
            processed_requests: 0,
            total_wait_time: 0,
            throughput_window: Seq::empty(),
        }
    }

    /// The statistics after one more request was made.
    pub open spec fn created(self) -> SystemStatsView {
        SystemStatsView { total_requests: self.total_requests + 1, ..self }
    }

    /// The statistics after a request made at `created_at` was served at
    /// `now`: it is counted, its wait is added up, its completion enters
    /// the window, and completions older than the window leave it.
    pub open spec fn processed(self, created_at: u64, now: u64) -> SystemStatsView {
        SystemStatsView {
            processed_requests: self.processed_requests + 1,
            total_wait_time: self.total_wait_time + wait_time(created_at, now),
            throughput_window: self.throughput_window.push(now).filter(recent_at(now)),
            ..self
        }
    }

    /// The mean wait of the requests served so far, in whole
    /// milliseconds; zero while none was served.
    pub open spec fn avg_wait_time(self) -> nat {
        if self.processed_requests == 0 {
            0
        } else {
            self.total_wait_time / self.processed_requests
        }
    }

    /// The number of completions in the window.
    pub open spec fn throughput(self) -> nat {
        self.throughput_window.len()
    }
}

/// Running statistics of the simulation.
#[derive(Debug, Clone, PartialEq, Eq)]
pub struct SystemStats {
    pub total_requests: usize,
    pub processed_requests: usize,
    /// The sum of the waits of all requests served, in milliseconds.
    pub total_wait_time: u64,
    /// The times of the completions that are no older than the window.
    pub throughput_window: Vec<u64>,
}

impl View for SystemStats {
    type V = SystemStatsView;

    open spec fn view(&self) -> SystemStatsView {
        SystemStatsView {
            total_requests: self.total_requests as nat,
            processed_requests: self.processed_requests as nat,
            total_wait_time: self.total_wait_time as nat,
            throughput_window: self.throughput_window@,
        }
    }
}

impl SystemStats {
    /// Statistics of a run in which nothing has happened yet.
    pub fn new() -> (stats: Self)
        ensures
            stats@ == SystemStatsView::empty(),
    {
        Self {
            total_requests: 0,
            processed_requests: 0,
            total_wait_time: 0,
            throughput_window: Vec::new(),
        }
    }

    /// Counts a request that was made.
    pub fn record_created(&mut self)
        requires
            old(self).total_requests < usize::MAX,
        ensures
            final(self)@ == old(self)@.created(),
    {
        self.total_requests += 1;
    }

    /// Counts a request that was made at `created_at` and served at `now`.
    pub fn record_processed(&mut self, created_at: u64, now: u64)
        requires
            old(self).processed_requests < usize::MAX,
            old(self).total_wait_time + wait_time(created_at, now) <= u64::MAX,
        ensures
            final(self)@ == old(self)@.processed(created_at, now),
    {
        self.processed_requests += 1;
        self.total_wait_time += wait_time_ms(created_at, now);
        let ghost before = self.throughput_window@;
        let mut kept: Vec<u64> = Vec::new();
        let mut index: usize = 0;
        while index < self.throughput_window.len()
            invariant
                index <= before.len(),
                self.throughput_window@ == before,
                kept@ == before.take(index as int).filter(recent_at(now)),
            decreases before.len() - index,
        {
            let completed_at = self.throughput_window[index];
            proof {
                assert(before.take(index + 1) =~= before.take(index as int).push(completed_at));
                before.take(index as int).lemma_filter_push(completed_at, recent_at(now));
            }
            if now <= THROUGHPUT_WINDOW_MS || completed_at >= now - THROUGHPUT_WINDOW_MS {
                kept.push(completed_at);
            }
            index += 1;
        }
        proof {
            assert(before.take(before.len() as int) =~= before);
            before.lemma_filter_push(now, recent_at(now));
        }
        kept.push(now);
        self.throughput_window = kept;
    }

    /// The mean wait of the requests served so far, in whole
    /// milliseconds; zero while none was served.
    pub fn avg_wait_time(&self) -> (millis: u64)
        ensures
            millis == self@.avg_wait_time(),
    {
        if self.processed_requests == 0 {
            0
        } else {
            self.total_wait_time / (self.processed_requests as u64)
        }
    }

    /// The number of requests served within the window.
    pub fn throughput(&self) -> (completions: usize)
        ensures
            completions == self@.throughput(),
    {
        self.throughput_window.len()
    }
}

/// After a completion the window holds that completion, and nothing in it
/// is older than the window.
pub proof fn lemma_window_holds_recent(stats: SystemStatsView, created_at: u64, now: u64)
    ensures
        stats.processed(created_at, now).throughput_window.len() > 0,
        stats.processed(created_at, now).throughput_window.last() == now,
        forall|i: int|
            0 <= i < stats.processed(created_at, now).throughput_window.len() ==> is_recent(
                #[trigger] stats.processed(created_at, now).throughput_window[i],
                now,
            ),
        stats.processed(created_at, now).throughput() <= stats.throughput() + 1,
{
    let pushed = stats.throughput_window.push(now);
    let window = pushed.filter(recent_at(now));
    stats.throughput_window.lemma_filter_push(now, recent_at(now));
    stats.throughput_window.lemma_filter_len(recent_at(now));
    assert forall|i: int| 0 <= i < window.len() implies is_recent(#[trigger] window[i], now) by {
        pushed.lemma_filter_pred(recent_at(now), i);
    }
}

} // verus!
