//! Bounded record of recent requests, for the stats and log queries.
use vstd::prelude::*;

verus! {

#[derive(Clone, Copy, Debug, PartialEq, Eq, Structural)]
pub enum Protocol {
    OpenAi,
    Anthropic,
    Gemini,
}

pub struct RequestLog {
    pub protocol: Protocol,
    pub model: String,
    pub account: String,
    pub status: u16,
    pub duration_ms: u64,
    pub success: bool,
}

#[derive(Clone, Copy, Debug, PartialEq, Eq)]
pub struct ProxyStats {
    pub total: u64,
    pub success: u64,
    pub failed: u64,
}

pub struct RequestMonitor {
    /// Oldest first.
    pub logs: Vec<RequestLog>,
    pub capacity: usize,
    pub enabled: bool,
    pub stats: ProxyStats,
    /// Requests under way, streams included.
    pub in_flight: u64,
}

pub open spec fn bump(n: u64) -> u64 {
    if n < u64::MAX {
        (n + 1) as u64
    } else {
        n
    }
}

fn bump_exec(n: u64) -> (r: u64)
    ensures
        r == bump(n),
{
    if n < u64::MAX {
        n + 1
    } else {
        n
    }
}

/// The log list after appending `l` and dropping the oldest beyond `cap`.
pub open spec fn appended(logs: Seq<RequestLog>, l: RequestLog, cap: nat) -> Seq<RequestLog> {
    let w = logs.push(l);
    if w.len() > cap {
        w.drop_first()
    } else {
        w
    }
}

pub fn copy_log(l: &RequestLog) -> (r: RequestLog)
    ensures
        r == *l,
{
    RequestLog {
        protocol: l.protocol,
        model: l.model.clone(),
        account: l.account.clone(),
        status: l.status,
        duration_ms: l.duration_ms,
        success: l.success,
    }
}

impl RequestMonitor {
    pub open spec fn wf(&self) -> bool {
        self.logs@.len() <= self.capacity
    }

    pub fn new(capacity: usize, enabled: bool) -> (r: RequestMonitor)
        ensures
            r.wf(),
            r.logs@.len() == 0,
            r.capacity == capacity,
            r.enabled == enabled,
            r.stats == (ProxyStats { total: 0, success: 0, failed: 0 }),
            r.in_flight == 0,
    {
        RequestMonitor {
            logs: Vec::new(),
            capacity,
            enabled,
            stats: ProxyStats { total: 0, success: 0, failed: 0 },
            in_flight: 0,
        }
    }

    /// A request has started.
    pub fn begin_request(&mut self)
        requires
            old(self).wf(),
        ensures
            final(self).wf(),
            final(self).in_flight == bump(old(self).in_flight),
            final(self).logs@ == old(self).logs@,
            final(self).stats == old(self).stats,
            final(self).capacity == old(self).capacity,
            final(self).enabled == old(self).enabled,
    {
        self.in_flight = bump_exec(self.in_flight);
    }

    /// A request has ended: completed, failed, or cancelled by its caller.
    pub fn end_request(&mut self)
        requires
            old(self).wf(),
        ensures
            final(self).wf(),
            final(self).in_flight == (if old(self).in_flight > 0 {
                (old(self).in_flight - 1) as u64
            } else {
                0
            }),
            final(self).logs@ == old(self).logs@,
            final(self).stats == old(self).stats,
            final(self).capacity == old(self).capacity,
            final(self).enabled == old(self).enabled,
    {
        if self.in_flight > 0 {
            self.in_flight = self.in_flight - 1;
        }
    }

    pub fn set_enabled(&mut self, enabled: bool)
        requires
            old(self).wf(),
        ensures
            final(self).wf(),
            final(self).enabled == enabled,
            final(self).logs@ == old(self).logs@,
            final(self).stats == old(self).stats,
            final(self).capacity == old(self).capacity,
    {
        self.enabled = enabled;
    }

    /// Records a finished request while monitoring is enabled.
    pub fn record(&mut self, l: RequestLog)
        requires
            old(self).wf(),
        ensures
            final(self).wf(),
            final(self).capacity == old(self).capacity,
            final(self).enabled == old(self).enabled,
            !old(self).enabled ==> final(self).logs@ == old(self).logs@ && final(self).stats
                == old(self).stats,
            old(self).enabled ==> final(self).logs@ == appended(old(self).logs@, l, old(self).capacity as nat),
            old(self).enabled ==> final(self).stats == (ProxyStats {
                total: bump(old(self).stats.total),
                success: if l.success {
                    bump(old(self).stats.success)
                } else {
                    old(self).stats.success
                },
                failed: if l.success {
                    old(self).stats.failed
                } else {
                    bump(old(self).stats.failed)
                },
            }),
    {
        if !self.enabled {
            return;
        }
        self.stats.total = bump_exec(self.stats.total);
        if l.success {
            self.stats.success = bump_exec(self.stats.success);
        } else {
            self.stats.failed = bump_exec(self.stats.failed);
        }
        let ghost before = self.logs@;
        self.logs.push(l);
        if self.logs.len() > self.capacity {
            self.logs.remove(0);
            assert(self.logs@ =~= before.push(l).drop_first());
        }
    }

    pub fn get_stats(&self) -> (r: ProxyStats)
        ensures
            r == self.stats,
    {
        self.stats
    }

    /// Up to `limit` of the most recent requests, newest first.
    pub fn get_logs(&self, limit: usize) -> (r: Vec<RequestLog>)
        ensures
            r@.len() == (if limit < self.logs@.len() {
                limit as int
            } else {
                self.logs@.len() as int
            }),
            forall|j: int| 0 <= j < r@.len() ==> #[trigger] r@[j] == self.logs@[self.logs@.len() - 1 - j],
    {
        let n = self.logs.len();
        let m = if limit < n {
            limit
        } else {
            n
        };
        let mut r: Vec<RequestLog> = Vec::new();
        let mut j: usize = 0;
        while j < m
            invariant
                m <= n,
                n == self.logs@.len(),
                0 <= j <= m,
                r@.len() == j,
                forall|k: int| 0 <= k < j ==> #[trigger] r@[k] == self.logs@[n - 1 - k],
            decreases m - j,
        {
            r.push(copy_log(&self.logs[n - 1 - j]));
            j = j + 1;
        }
        r
    }
}

} // verus!
