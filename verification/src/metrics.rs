//! Per-call metrics: request counts, tool call counts and durations.
//!
//! Counters only grow, a tool's error count never exceeds its call
//! count, and the average duration is the total over the count. Elapsed
//! time enters as a measured duration, so recording is a function of its
//! arguments.

use vstd::prelude::*;

use crate::json::str_eq;

verus! {

/// One tool's counters: calls, failures among them, and the summed
/// duration.
#[derive(Debug, Clone, Copy, PartialEq, Eq, Structural)]
pub struct ToolMetrics {
    pub call_count: u64,
    pub error_count: u64,
    pub total_duration_ms: u64,
}

impl ToolMetrics {
    /// A tool's counters never count more failures than calls.
    pub open spec fn wf(&self) -> bool {
        self.error_count <= self.call_count
    }

    /// The average duration of a call: the total over the count, zero
    /// before the first call.
    pub fn avg_duration_ms(&self) -> (r: u64)
        ensures
            self.call_count > 0 ==> r == self.total_duration_ms / self.call_count,
            self.call_count == 0 ==> r == 0,
    {
        if self.call_count > 0 {
            self.total_duration_ms / self.call_count
        } else {
            0
        }
    }
}

/// The server's counters: request totals, tool call totals, connection
/// gauge, uptime, and per-tool counters.
#[derive(Debug)]
pub struct ServerMetrics {
    pub total_requests: u64,
    pub successful_requests: u64,
    pub failed_requests: u64,
    pub total_tools_called: u64,
    pub active_connections: u64,
    pub uptime_seconds: u64,
    pub tool_metrics: Vec<(String, ToolMetrics)>,
}

impl ServerMetrics {
    /// Every per-tool counter is well-formed and the totals add up.
    pub open spec fn wf(&self) -> bool {
        &&& self.successful_requests + self.failed_requests == self.total_requests
        &&& forall|k: int|
            0 <= k < self.tool_metrics@.len() ==> (#[trigger] self.tool_metrics@[k]).1.wf()
    }

    /// All counters at zero.
    pub fn new() -> (r: ServerMetrics)
        ensures
            r.wf(),
            r.total_requests == 0,
            r.tool_metrics@.len() == 0,
    {
        ServerMetrics {
            total_requests: 0,
            successful_requests: 0,
            failed_requests: 0,
            total_tools_called: 0,
            active_connections: 0,
            uptime_seconds: 0,
            tool_metrics: Vec::new(),
        }
    }
}

/// The counters stored under a tool name, first binding winning.
pub open spec fn spec_metrics_at(
    entries: Seq<(String, ToolMetrics)>,
    name: Seq<char>,
) -> Option<ToolMetrics>
    decreases entries.len(),
{
    if entries.len() == 0 {
        None
    } else if entries[0].0@ == name {
        Some(entries[0].1)
    } else {
        spec_metrics_at(entries.drop_first(), name)
    }
}

/// A tool's first binding is found past any non-matching prefix.
proof fn lemma_metrics_at_skip(entries: Seq<(String, ToolMetrics)>, name: Seq<char>, i: int)
    requires
        0 <= i <= entries.len(),
        forall|k: int| 0 <= k < i ==> (#[trigger] entries[k]).0@ != name,
    ensures
        spec_metrics_at(entries, name) == spec_metrics_at(entries.skip(i), name),
    decreases i,
{
    if i > 0 {
        assert(entries[0].0@ != name);
        assert(entries.drop_first() =~= entries.skip(1));
        assert(spec_metrics_at(entries, name) == spec_metrics_at(entries.drop_first(), name));
        assert forall|k: int| 0 <= k < i - 1 implies (#[trigger] entries.skip(1)[k]).0@ != name by {
            assert(entries.skip(1)[k] == entries[k + 1]);
        }
        lemma_metrics_at_skip(entries.skip(1), name, i - 1);
        assert(entries.skip(1).skip(i - 1) =~= entries.skip(i));
        assert(spec_metrics_at(entries.skip(1), name) == spec_metrics_at(entries.skip(i), name));
    } else {
        assert(entries.skip(0) =~= entries);
    }
}

/// One observed call folded into a tool's counters: one more call, one
/// more error exactly when the call failed, the duration added; every
/// sum saturates rather than wraps.
pub open spec fn spec_bump(m: ToolMetrics, duration_ms: u64, success: bool) -> ToolMetrics {
    let call_count: u64 = if m.call_count < 0xffff_ffff_ffff_ffff {
        (m.call_count + 1) as u64
    } else {
        m.call_count
    };
    let error_count: u64 = if !success {
        if m.error_count < call_count {
            (m.error_count + 1) as u64
        } else {
            m.error_count
        }
    } else {
        m.error_count
    };
    let total_duration_ms: u64 = if m.total_duration_ms + duration_ms <= 0xffff_ffff_ffff_ffff {
        (m.total_duration_ms + duration_ms) as u64
    } else {
        0xffff_ffff_ffff_ffff
    };
    ToolMetrics { call_count, error_count, total_duration_ms }
}

/// The metrics collector: owns the counters and applies one update per
/// observed event.
#[derive(Debug)]
pub struct MetricsCollector {
    pub metrics: ServerMetrics,
}

impl MetricsCollector {
    /// A collector with all counters at zero.
    pub fn new() -> (r: MetricsCollector)
        ensures
            r.metrics.wf(),
            r.metrics.total_requests == 0,
            r.metrics.tool_metrics@.len() == 0,
    {
        MetricsCollector { metrics: ServerMetrics::new() }
    }

    /// Counts one request, as a success or a failure.
    pub fn record_request(&mut self, success: bool)
        requires
            old(self).metrics.wf(),
            old(self).metrics.total_requests < 0xffff_ffff_ffff_ffff,
        ensures
            final(self).metrics.wf(),
            final(self).metrics.total_requests == old(self).metrics.total_requests + 1,
            success ==> final(self).metrics.successful_requests == old(
                self,
            ).metrics.successful_requests + 1,
            !success ==> final(self).metrics.failed_requests == old(self).metrics.failed_requests
                + 1,
            final(self).metrics.tool_metrics == old(self).metrics.tool_metrics,
    {
        self.metrics.total_requests = self.metrics.total_requests + 1;
        if success {
            self.metrics.successful_requests = self.metrics.successful_requests + 1;
        } else {
            self.metrics.failed_requests = self.metrics.failed_requests + 1;
        }
    }

    /// Counts one tool call with its measured duration: the named
    /// tool's counters take exactly one observation — a fresh tool
    /// starts from zero — and every other tool's counters are untouched.
    #[verifier::loop_isolation(false)]
    pub fn record_tool_call(&mut self, tool_name: &str, duration_ms: u64, success: bool)
        requires
            old(self).metrics.wf(),
        ensures
            final(self).metrics.wf(),
            final(self).metrics.total_requests == old(self).metrics.total_requests,
            final(self).metrics.successful_requests == old(self).metrics.successful_requests,
            final(self).metrics.failed_requests == old(self).metrics.failed_requests,
            final(self).metrics.total_tools_called == (if old(self).metrics.total_tools_called
                < 0xffff_ffff_ffff_ffff {
                old(self).metrics.total_tools_called + 1
            } else {
                old(self).metrics.total_tools_called as int
            }),
            forall|k: int|
                0 <= k < old(self).metrics.tool_metrics@.len() && (#[trigger] old(
                    self,
                ).metrics.tool_metrics@[k]).0@ != tool_name@
                    ==> final(self).metrics.tool_metrics@[k] == old(self).metrics.tool_metrics@[k],
            match spec_metrics_at(old(self).metrics.tool_metrics@, tool_name@) {
                Some(m) => final(self).metrics.tool_metrics@.len() == old(
                    self,
                ).metrics.tool_metrics@.len() && spec_metrics_at(
                    final(self).metrics.tool_metrics@,
                    tool_name@,
                ) == Some(spec_bump(m, duration_ms, success)),
                None => final(self).metrics.tool_metrics@.len() == old(
                    self,
                ).metrics.tool_metrics@.len() + 1 && spec_metrics_at(
                    final(self).metrics.tool_metrics@,
                    tool_name@,
                ) == Some::<ToolMetrics>(
                    spec_bump(
                        ToolMetrics { call_count: 0, error_count: 0, total_duration_ms: 0 },
                        duration_ms,
                        success,
                    ),
                ),
            },
    {
        if self.metrics.total_tools_called < 0xffff_ffff_ffff_ffff {
            self.metrics.total_tools_called = self.metrics.total_tools_called + 1;
        }
        let ghost entries0 = self.metrics.tool_metrics@;
        let mut i: usize = 0;
        while i < self.metrics.tool_metrics.len()
            invariant
                i <= self.metrics.tool_metrics@.len(),
                self.metrics.tool_metrics == old(self).metrics.tool_metrics,
                self.metrics.total_requests == old(self).metrics.total_requests,
                self.metrics.successful_requests == old(self).metrics.successful_requests,
                self.metrics.failed_requests == old(self).metrics.failed_requests,
                self.metrics.total_tools_called == (if old(self).metrics.total_tools_called
                    < 0xffff_ffff_ffff_ffff {
                    old(self).metrics.total_tools_called + 1
                } else {
                    old(self).metrics.total_tools_called as int
                }),
                entries0 == old(self).metrics.tool_metrics@,
                forall|k: int|
                    0 <= k < i ==> (#[trigger] self.metrics.tool_metrics@[k]).0@ != tool_name@,
            decreases self.metrics.tool_metrics@.len() - i,
        {
            if str_eq(self.metrics.tool_metrics[i].0.as_str(), tool_name) {
                proof {
                    lemma_metrics_at_skip(entries0, tool_name@, i as int);
                    assert(entries0.skip(i as int)[0] == entries0[i as int]);
                    assert(spec_metrics_at(entries0, tool_name@) == Some(entries0[i as int].1));
                }
                let old_entry = self.metrics.tool_metrics.remove(i);
                let updated = bump(old_entry.1, duration_ms, success);
                self.metrics.tool_metrics.insert(i, (old_entry.0, updated));
                proof {
                    entries0.remove_ensures(i as int);
                    entries0.remove(i as int).insert_ensures(
                        i as int,
                        self.metrics.tool_metrics@[i as int],
                    );
                    assert forall|k: int|
                        0 <= k < entries0.len() && k
                        != i as int implies #[trigger] self.metrics.tool_metrics@[k]
                        == entries0[k] by {
                        if k < i as int {
                            assert(entries0.remove(i as int)[k] == entries0[k]);
                        } else {
                            assert(entries0.remove(i as int)[k - 1] == entries0[k]);
                        }
                    }
                    assert forall|k: int|
                        0 <= k < i as int implies (
                    #[trigger] self.metrics.tool_metrics@[k]).0@ != tool_name@ by {
                        assert(self.metrics.tool_metrics@[k] == entries0[k]);
                    }
                    lemma_metrics_at_skip(self.metrics.tool_metrics@, tool_name@, i as int);
                    assert(self.metrics.tool_metrics@.skip(i as int)[0]
                        == self.metrics.tool_metrics@[i as int]);
                    assert forall|k: int|
                        0 <= k < self.metrics.tool_metrics@.len() implies (
                    #[trigger] self.metrics.tool_metrics@[k]).1.wf() by {
                        if k != i as int {
                            assert(self.metrics.tool_metrics@[k] == entries0[k]);
                        }
                    }
                }
                return ;
            }
            i = i + 1;
        }
        proof {
            lemma_metrics_at_skip(entries0, tool_name@, entries0.len() as int);
            assert(entries0.skip(entries0.len() as int).len() == 0);
        }
        let fresh = bump(
            ToolMetrics { call_count: 0, error_count: 0, total_duration_ms: 0 },
            duration_ms,
            success,
        );
        self.metrics.tool_metrics.push((tool_name.to_owned(), fresh));
        proof {
            assert forall|k: int|
                0 <= k < entries0.len() implies #[trigger] self.metrics.tool_metrics@[k]
                == entries0[k] by {}
            lemma_metrics_at_skip(self.metrics.tool_metrics@, tool_name@, entries0.len() as int);
            assert(self.metrics.tool_metrics@.skip(entries0.len() as int) =~= seq![
                self.metrics.tool_metrics@.last(),
            ]);
            assert(self.metrics.tool_metrics@.last().0@ == tool_name@);
        }
    }

    /// Moves the connection gauge by the change seen, clamping at zero
    /// and at the top.
    pub fn record_connection_change(&mut self, delta: i64)
        ensures
            delta >= 0 ==> final(self).metrics.active_connections as int == (if old(
                self,
            ).metrics.active_connections + delta <= 0xffff_ffff_ffff_ffff {
                old(self).metrics.active_connections + delta
            } else {
                0xffff_ffff_ffff_ffff
            }),
            delta < 0 ==> final(self).metrics.active_connections as int == (if old(
                self,
            ).metrics.active_connections + delta >= 0 {
                old(self).metrics.active_connections + delta
            } else {
                0
            }),
            final(self).metrics.total_requests == old(self).metrics.total_requests,
            final(self).metrics.tool_metrics == old(self).metrics.tool_metrics,
            final(self).metrics.wf() == old(self).metrics.wf(),
    {
        if delta >= 0 {
            let d = delta as u64;
            if self.metrics.active_connections <= 0xffff_ffff_ffff_ffff - d {
                self.metrics.active_connections = self.metrics.active_connections + d;
            } else {
                self.metrics.active_connections = 0xffff_ffff_ffff_ffff;
            }
        } else {
            let d = (-(delta as i128)) as u64;
            if self.metrics.active_connections >= d {
                self.metrics.active_connections = self.metrics.active_connections - d;
            } else {
                self.metrics.active_connections = 0;
            }
        }
    }

    /// The counters as they stand, with the uptime the caller measured.
    #[verifier::loop_isolation(false)]
    pub fn snapshot(&self, uptime_seconds: u64) -> (r: ServerMetrics)
        requires
            self.metrics.wf(),
        ensures
            r.wf(),
            r.total_requests == self.metrics.total_requests,
            r.successful_requests == self.metrics.successful_requests,
            r.failed_requests == self.metrics.failed_requests,
            r.uptime_seconds == uptime_seconds,
            r.tool_metrics@.len() == self.metrics.tool_metrics@.len(),
    {
        let mut tool_metrics: Vec<(String, ToolMetrics)> = Vec::new();
        let mut i: usize = 0;
        while i < self.metrics.tool_metrics.len()
            invariant
                i <= self.metrics.tool_metrics@.len(),
                tool_metrics@.len() == i,
                forall|k: int|
                    0 <= k < i ==> (#[trigger] tool_metrics@[k]).1.wf(),
            decreases self.metrics.tool_metrics@.len() - i,
        {
            proof {
                assert(self.metrics.tool_metrics@[i as int].1.wf());
            }
            tool_metrics.push(
                (self.metrics.tool_metrics[i].0.clone(), self.metrics.tool_metrics[i].1),
            );
            i = i + 1;
        }
        ServerMetrics {
            total_requests: self.metrics.total_requests,
            successful_requests: self.metrics.successful_requests,
            failed_requests: self.metrics.failed_requests,
            total_tools_called: self.metrics.total_tools_called,
            active_connections: self.metrics.active_connections,
            uptime_seconds,
            tool_metrics,
        }
    }
}

impl Default for MetricsCollector {
    /// All counters at zero, as `new` gives it.
    fn default() -> (r: MetricsCollector)
        ensures
            r.metrics.wf(),
            r.metrics.total_requests == 0,
    {
        MetricsCollector::new()
    }
}

/// One observed call folded into a tool's counters, exactly as
/// `spec_bump` says.
fn bump(m: ToolMetrics, duration_ms: u64, success: bool) -> (r: ToolMetrics)
    requires
        m.wf(),
    ensures
        r.wf(),
        r == spec_bump(m, duration_ms, success),
{
    let call_count: u64 = if m.call_count < 0xffff_ffff_ffff_ffff {
        m.call_count + 1
    } else {
        m.call_count
    };
    let error_count: u64 = if !success {
        if m.error_count < call_count {
            m.error_count + 1
        } else {
            m.error_count
        }
    } else {
        m.error_count
    };
    let total_duration_ms: u64 = if m.total_duration_ms <= 0xffff_ffff_ffff_ffff - duration_ms {
        m.total_duration_ms + duration_ms
    } else {
        0xffff_ffff_ffff_ffff
    };
    ToolMetrics { call_count, error_count, total_duration_ms }
}

} // verus!
