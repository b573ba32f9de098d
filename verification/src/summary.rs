//! The profiler's read-outs: snapshot, self-diagnostics, flush status, and
//! the counts of the report over the completed history.
use std::collections::VecDeque;

use vstd::prelude::*;

use crate::analysis::{is_failed, is_slow};
use crate::records::{JobRecord, ProfilerRuntime, ProfilerState};
use crate::text::str_eq;

verus! {

/// The smaller of two numbers.
pub open spec fn min_nat(a: nat, b: nat) -> nat {
    if a < b {
        a
    } else {
        b
    }
}

/// The positions of the newest `limit` items of a list of `len`, newest
/// first.
pub open spec fn newest_first(len: nat, limit: nat) -> Seq<usize> {
    Seq::new(min_nat(len, limit), |k: int| (len - 1 - k) as usize)
}

/// The positions of the newest `limit` items of a list of `len`, newest
/// first.
pub fn newest_positions(len: usize, limit: usize) -> (r: Vec<usize>)
    ensures
        r@ == newest_first(len as nat, limit as nat),
{
    let mut out: Vec<usize> = Vec::new();
    let mut k: usize = 0;
    while k < len && k < limit
        invariant
            k <= len,
            k <= limit,
            out@ == Seq::new(k as nat, |q: int| (len - 1 - q) as usize),
        decreases len - k,
    {
        out.push(len - 1 - k);
        assert(out@ =~= Seq::new((k + 1) as nat, |q: int| (len - 1 - q) as usize));
        k += 1;
    }
    assert(out@ =~= newest_first(len as nat, limit as nat));
    out
}

/// The number of records with the property.
pub open spec fn count_where<M>(s: Seq<JobRecord<M>>, p: spec_fn(JobRecord<M>) -> bool) -> nat
    decreases s.len(),
{
    if s.len() == 0 {
        0
    } else {
        count_where(s.drop_last(), p) + if p(s.last()) {
            1nat
        } else {
            0nat
        }
    }
}

/// The sum of a field over the records, saturating at `u64::MAX`.
pub open spec fn saturating_total<M>(s: Seq<JobRecord<M>>, f: spec_fn(JobRecord<M>) -> Option<u64>) -> u64
    decreases s.len(),
{
    if s.len() == 0 {
        0
    } else {
        saturating_total(s.drop_last(), f).saturating_add(
            match f(s.last()) {
                Some(v) => v,
                None => 0,
            },
        )
    }
}

/// The profiler at a glance: its switches and counters, and the positions
/// of the newest flush requests (64), completed jobs (256) and diagnostics
/// (256), newest first.
pub struct SnapshotView {
    pub enabled: bool,
    pub events_seen: u64,
    pub malformed_events: u64,
    pub active_count: usize,
    pub completed_count: usize,
    pub reports_written: u64,
    pub reports_in_progress: u64,
    pub reports_scheduled: u64,
    pub reports_failed: u64,
    pub recent_flush_requests: Vec<usize>,
    pub recent_completed: Vec<usize>,
    pub recent_diagnostics: Vec<usize>,
}

/// The profiler's report on itself: `warn` where events were malformed,
/// running jobs went stale or jobs failed, `ok` otherwise; its counters;
/// and the positions of the newest flush requests (64) and diagnostics
/// (512), newest first.
pub struct DiagnosticsView {
    pub status: String,
    pub enabled: bool,
    pub active_jobs: usize,
    pub completed_jobs_kept: usize,
    pub failed_jobs: usize,
    pub slow_or_over_budget_jobs: usize,
    pub events_seen: u64,
    pub malformed_events: u64,
    pub stale_active_jobs: usize,
    pub reports_written: u64,
    pub reports_in_progress: u64,
    pub reports_scheduled: u64,
    pub reports_failed: u64,
    pub recent_flush_requests: Vec<usize>,
    pub recent_diagnostics: Vec<usize>,
}

/// The report counters and the positions of the newest flush requests
/// (128), newest first.
pub struct FlushStatusView {
    pub reports_written: u64,
    pub reports_in_progress: u64,
    pub reports_scheduled: u64,
    pub reports_failed: u64,
    pub recent_flush_requests: Vec<usize>,
}

/// The counts of the report over the completed jobs.
pub struct ReportTotals {
    pub failed_jobs: u64,
    pub slow_or_over_budget_jobs: u64,
    pub over_budget_jobs: u64,
    pub scheduled_jobs: u64,
    pub blocked_jobs: u64,
    pub polling_jobs: u64,
    pub gpu_wait_jobs: u64,
    pub async_jobs: u64,
    pub frame_budget_exceeded_jobs: u64,
    pub total_payload_bytes: u64,
    pub total_output_bytes: u64,
}

/// The report counts of `jobs`.
pub open spec fn totals_ok<M>(jobs: Seq<JobRecord<M>>, t: ReportTotals) -> bool {
    &&& t.failed_jobs == count_where(jobs, |j: JobRecord<M>| is_failed(j))
    &&& t.slow_or_over_budget_jobs == count_where(jobs, |j: JobRecord<M>| is_slow(j))
    &&& t.over_budget_jobs == count_where(jobs, |j: JobRecord<M>| j.facts.over_budget)
    &&& t.scheduled_jobs == count_where(jobs, |j: JobRecord<M>| j.scheduled)
    &&& t.blocked_jobs == count_where(jobs, |j: JobRecord<M>| j.blocked)
    &&& t.polling_jobs == count_where(jobs, |j: JobRecord<M>| j.polling)
    &&& t.gpu_wait_jobs == count_where(jobs, |j: JobRecord<M>| j.waited_on_gpu)
    &&& t.async_jobs == count_where(jobs, |j: JobRecord<M>| j.stayed_async)
    &&& t.frame_budget_exceeded_jobs == count_where(
        jobs,
        |j: JobRecord<M>| j.exceeded_frame_budget,
    )
    &&& t.total_payload_bytes == saturating_total(jobs, |j: JobRecord<M>| j.payload_bytes)
    &&& t.total_output_bytes == saturating_total(jobs, |j: JobRecord<M>| j.output_bytes)
}

/// The report counts over the completed jobs: failed, slow or over budget,
/// over budget, and each scheduling flag, with the payload and output
/// bytes summed (saturating).
pub fn report_totals<M>(jobs: &VecDeque<JobRecord<M>>) -> (r: ReportTotals)
    ensures
        totals_ok(jobs@, r),
{
    let ghost s = jobs@;
    let mut t = ReportTotals {
        failed_jobs: 0,
        slow_or_over_budget_jobs: 0,
        over_budget_jobs: 0,
        scheduled_jobs: 0,
        blocked_jobs: 0,
        polling_jobs: 0,
        gpu_wait_jobs: 0,
        async_jobs: 0,
        frame_budget_exceeded_jobs: 0,
        total_payload_bytes: 0,
        total_output_bytes: 0,
    };
    proof {
        reveal_strlit("failed");
    }
    let mut i: usize = 0;
    assert(s.take(0) =~= Seq::<JobRecord<M>>::empty());
    while i < jobs.len()
        invariant
            i <= s.len(),
            s == jobs@,
            totals_ok(s.take(i as int), t),
            t.failed_jobs <= i && t.slow_or_over_budget_jobs <= i && t.over_budget_jobs <= i,
            t.scheduled_jobs <= i && t.blocked_jobs <= i && t.polling_jobs <= i,
            t.gpu_wait_jobs <= i && t.async_jobs <= i && t.frame_budget_exceeded_jobs <= i,
        decreases s.len() - i,
    {
        let j = &jobs[i];
        assert(s.take(i + 1).drop_last() =~= s.take(i as int));
        assert(s.take(i + 1).last() == s[i as int]);
        if str_eq(j.status.as_str(), "failed") {
            t.failed_jobs = t.failed_jobs + 1;
        }
        if j.facts.slow || j.facts.over_budget {
            t.slow_or_over_budget_jobs = t.slow_or_over_budget_jobs + 1;
        }
        if j.facts.over_budget {
            t.over_budget_jobs = t.over_budget_jobs + 1;
        }
        if j.scheduled {
            t.scheduled_jobs = t.scheduled_jobs + 1;
        }
        if j.blocked {
            t.blocked_jobs = t.blocked_jobs + 1;
        }
        if j.polling {
            t.polling_jobs = t.polling_jobs + 1;
        }
        if j.waited_on_gpu {
            t.gpu_wait_jobs = t.gpu_wait_jobs + 1;
        }
        if j.stayed_async {
            t.async_jobs = t.async_jobs + 1;
        }
        if j.exceeded_frame_budget {
            t.frame_budget_exceeded_jobs = t.frame_budget_exceeded_jobs + 1;
        }
        let pb = match j.payload_bytes {
            Some(v) => v,
            None => 0,
        };
        let ob = match j.output_bytes {
            Some(v) => v,
            None => 0,
        };
        t.total_payload_bytes = t.total_payload_bytes.saturating_add(pb);
        t.total_output_bytes = t.total_output_bytes.saturating_add(ob);
        i += 1;
    }
    assert(s.take(s.len() as int) =~= s);
    t
}

/// The positions of the records with the property, in order.
pub open spec fn positions_where<M>(s: Seq<JobRecord<M>>, p: spec_fn(JobRecord<M>) -> bool) -> Seq<
    usize,
>
    decreases s.len(),
{
    if s.len() == 0 {
        Seq::empty()
    } else if p(s.last()) {
        positions_where(s.drop_last(), p).push((s.len() - 1) as usize)
    } else {
        positions_where(s.drop_last(), p)
    }
}

/// The positions of the completed jobs that were slow or over budget, in
/// order; the report ranks them.
pub fn budget_violation_positions<M>(jobs: &VecDeque<JobRecord<M>>) -> (r: Vec<usize>)
    ensures
        r@ == positions_where(jobs@, |j: JobRecord<M>| is_slow(j)),
{
    let ghost s = jobs@;
    let ghost p = |j: JobRecord<M>| is_slow(j);
    let mut out: Vec<usize> = Vec::new();
    let mut i: usize = 0;
    assert(s.take(0) =~= Seq::<JobRecord<M>>::empty());
    while i < jobs.len()
        invariant
            i <= s.len(),
            s == jobs@,
            p == (|j: JobRecord<M>| is_slow(j)),
            out@ == positions_where(s.take(i as int), p),
        decreases s.len() - i,
    {
        assert(s.take(i + 1).drop_last() =~= s.take(i as int));
        assert(s.take(i + 1).last() == s[i as int]);
        if jobs[i].facts.slow || jobs[i].facts.over_budget {
            out.push(i);
        }
        i += 1;
    }
    assert(s.take(s.len() as int) =~= s);
    out
}

/// The positions of the completed jobs that exceeded their frame budget,
/// in order; the report ranks them.
pub fn frame_budget_violation_positions<M>(jobs: &VecDeque<JobRecord<M>>) -> (r: Vec<usize>)
    ensures
        r@ == positions_where(jobs@, |j: JobRecord<M>| j.exceeded_frame_budget),
{
    let ghost s = jobs@;
    let ghost p = |j: JobRecord<M>| j.exceeded_frame_budget;
    let mut out: Vec<usize> = Vec::new();
    let mut i: usize = 0;
    assert(s.take(0) =~= Seq::<JobRecord<M>>::empty());
    while i < jobs.len()
        invariant
            i <= s.len(),
            s == jobs@,
            p == (|j: JobRecord<M>| j.exceeded_frame_budget),
            out@ == positions_where(s.take(i as int), p),
        decreases s.len() - i,
    {
        assert(s.take(i + 1).drop_last() =~= s.take(i as int));
        assert(s.take(i + 1).last() == s[i as int]);
        if jobs[i].exceeded_frame_budget {
            out.push(i);
        }
        i += 1;
    }
    assert(s.take(s.len() as int) =~= s);
    out
}

/// The self-diagnostics status: `warn` where events were malformed,
/// running jobs went stale or jobs failed.
pub open spec fn diagnostics_status(malformed: u64, stale: usize, failed: nat) -> Seq<char> {
    if malformed > 0 || stale > 0 || failed > 0 {
        "warn"@
    } else {
        "ok"@
    }
}

impl ProfilerRuntime {
    /// The snapshot read-out.
    pub fn snapshot_locked<M>(&self, state: &ProfilerState<M>) -> (r: SnapshotView)
        ensures
            r.enabled == self.cfg.enabled,
            r.events_seen == state.events_seen,
            r.malformed_events == state.malformed_events,
            r.active_count == state.active@.len(),
            r.completed_count == state.completed@.len(),
            r.reports_written == state.reports_written,
            r.reports_in_progress == state.reports_in_progress,
            r.reports_scheduled == state.reports_scheduled,
            r.reports_failed == state.reports_failed,
            r.recent_flush_requests@ == newest_first(state.flush_requests@.len(), 64),
            r.recent_completed@ == newest_first(state.completed@.len(), 256),
            r.recent_diagnostics@ == newest_first(state.diagnostics@.len(), 256),
    {
        SnapshotView {
            enabled: self.cfg.enabled,
            events_seen: state.events_seen,
            malformed_events: state.malformed_events,
            active_count: state.active.len(),
            completed_count: state.completed.len(),
            reports_written: state.reports_written,
            reports_in_progress: state.reports_in_progress,
            reports_scheduled: state.reports_scheduled,
            reports_failed: state.reports_failed,
            recent_flush_requests: newest_positions(state.flush_requests.len(), 64),
            recent_completed: newest_positions(state.completed.len(), 256),
            recent_diagnostics: newest_positions(state.diagnostics.len(), 256),
        }
    }

    /// The self-diagnostics read-out; `stale_active_jobs` running jobs have
    /// run past the stale threshold.
    pub fn diagnostics_locked<M>(&self, state: &ProfilerState<M>, stale_active_jobs: usize) -> (r:
        DiagnosticsView)
        ensures
            r.failed_jobs == count_where(state.completed@, |j: JobRecord<M>| is_failed(j)),
            r.slow_or_over_budget_jobs == count_where(
                state.completed@,
                |j: JobRecord<M>| is_slow(j),
            ),
            r.status@ == diagnostics_status(
                state.malformed_events,
                stale_active_jobs,
                r.failed_jobs as nat,
            ),
            r.enabled == self.cfg.enabled,
            r.active_jobs == state.active@.len(),
            r.completed_jobs_kept == state.completed@.len(),
            r.events_seen == state.events_seen,
            r.malformed_events == state.malformed_events,
            r.stale_active_jobs == stale_active_jobs,
            r.reports_written == state.reports_written,
            r.reports_in_progress == state.reports_in_progress,
            r.reports_scheduled == state.reports_scheduled,
            r.reports_failed == state.reports_failed,
            r.recent_flush_requests@ == newest_first(state.flush_requests@.len(), 64),
            r.recent_diagnostics@ == newest_first(state.diagnostics@.len(), 512),
    {
        let ghost s = state.completed@;
        let ghost pf = |j: JobRecord<M>| is_failed(j);
        let ghost ps = |j: JobRecord<M>| is_slow(j);
        let mut failed: usize = 0;
        let mut slow: usize = 0;
        proof {
            reveal_strlit("failed");
        }
        let mut i: usize = 0;
        assert(s.take(0) =~= Seq::<JobRecord<M>>::empty());
        while i < state.completed.len()
            invariant
                i <= s.len(),
                s == state.completed@,
                pf == (|j: JobRecord<M>| is_failed(j)),
                ps == (|j: JobRecord<M>| is_slow(j)),
                failed == count_where(s.take(i as int), pf),
                slow == count_where(s.take(i as int), ps),
                failed <= i,
                slow <= i,
            decreases s.len() - i,
        {
            let j = &state.completed[i];
            assert(s.take(i + 1).drop_last() =~= s.take(i as int));
            assert(s.take(i + 1).last() == s[i as int]);
            if str_eq(j.status.as_str(), "failed") {
                failed = failed + 1;
            }
            if j.facts.slow || j.facts.over_budget {
                slow = slow + 1;
            }
            i += 1;
        }
        assert(s.take(s.len() as int) =~= s);
        proof {
            reveal_strlit("warn");
            reveal_strlit("ok");
        }
        let status = if state.malformed_events > 0 || stale_active_jobs > 0 || failed > 0 {
            "warn".to_owned()
        } else {
            "ok".to_owned()
        };
        DiagnosticsView {
            status,
            enabled: self.cfg.enabled,
            active_jobs: state.active.len(),
            completed_jobs_kept: state.completed.len(),
            failed_jobs: failed,
            slow_or_over_budget_jobs: slow,
            events_seen: state.events_seen,
            malformed_events: state.malformed_events,
            stale_active_jobs,
            reports_written: state.reports_written,
            reports_in_progress: state.reports_in_progress,
            reports_scheduled: state.reports_scheduled,
            reports_failed: state.reports_failed,
            recent_flush_requests: newest_positions(state.flush_requests.len(), 64),
            recent_diagnostics: newest_positions(state.diagnostics.len(), 512),
        }
    }

    /// The flush status read-out.
    pub fn flush_status<M>(&self, state: &ProfilerState<M>) -> (r: FlushStatusView)
        ensures
            r.reports_written == state.reports_written,
            r.reports_in_progress == state.reports_in_progress,
            r.reports_scheduled == state.reports_scheduled,
            r.reports_failed == state.reports_failed,
            r.recent_flush_requests@ == newest_first(state.flush_requests@.len(), 128),
    {
        FlushStatusView {
            reports_written: state.reports_written,
            reports_in_progress: state.reports_in_progress,
            reports_scheduled: state.reports_scheduled,
            reports_failed: state.reports_failed,
            recent_flush_requests: newest_positions(state.flush_requests.len(), 128),
        }
    }
}

} // verus!
