//! The life of report flush requests: their records, the bounded request
//! log, and the report counters they drive.
use vstd::prelude::*;

use crate::constants::{ENGINE_THREADING_GATEWAY_ID, TASK_INVOKE_SERVICE_V1};
use crate::jobs::{diag_pushed, keep_last};
use crate::metadata::{meta_get, MetaValue, Metadata};
use crate::records::{FlushRequestRecord, ProfilerRuntime, ProfilerState};
use crate::text::{chars_eq, chars_eq_ignore_case, chars_of, eq_ignore_case, push_str, str_eq};

verus! {

/// The number of flush requests the log keeps.
pub const MAX_FLUSH_REQUESTS: usize = 256;

/// `k` is the newest position of a request with this id.
pub open spec fn is_last_with_id(s: Seq<FlushRequestRecord>, id: Seq<char>, k: int) -> bool {
    &&& 0 <= k < s.len()
    &&& s[k].request_id@ == id
    &&& forall|j: int| k < j < s.len() ==> #[trigger] s[j].request_id@ != id
}

/// A request with this id is in the log.
pub open spec fn has_id(s: Seq<FlushRequestRecord>, id: Seq<char>) -> bool {
    exists|k: int| 0 <= k < s.len() && #[trigger] s[k].request_id@ == id
}

/// A status that ends a request.
pub open spec fn is_terminal(status: Seq<char>) -> bool {
    status == "completed"@ || status == "failed"@
}

/// The record kept when a late `scheduled` report meets a finished request:
/// the finished record, with the scheduler's reply attached where it had
/// none and the new scheduling mode.
pub open spec fn late_schedule_merge(
    existing: FlushRequestRecord,
    record: FlushRequestRecord,
    merged: FlushRequestRecord,
) -> bool {
    &&& merged.request_id == existing.request_id
    &&& merged.job_id == existing.job_id
    &&& merged.reason == existing.reason
    &&& merged.status == existing.status
    &&& merged.requested_unix_ms == existing.requested_unix_ms
    &&& merged.completed_unix_ms == existing.completed_unix_ms
    &&& merged.error == existing.error
    &&& merged.scheduling_mode == record.scheduling_mode
    &&& merged.engine_jobs_response == (if existing.engine_jobs_response is None {
        record.engine_jobs_response
    } else {
        existing.engine_jobs_response
    })
}

/// The request log after recording `record`, and whether its status counts.
pub open spec fn flush_log_updated(
    old: Seq<FlushRequestRecord>,
    new: Seq<FlushRequestRecord>,
    record: FlushRequestRecord,
    counted: bool,
) -> bool {
    if has_id(old, record.request_id@) {
        let k = choose|k: int| is_last_with_id(old, record.request_id@, k);
        &&& new.len() == old.len()
        &&& forall|j: int| 0 <= j < old.len() && j != k ==> #[trigger] new[j] == old[j]
        &&& if is_terminal(old[k].status@) && record.status@ == "scheduled"@ {
            &&& late_schedule_merge(old[k], record, new[k])
            &&& !counted
        } else {
            &&& new[k] == record
            &&& counted == (old[k].status@ != record.status@)
        }
    } else {
        &&& new == keep_last(old.push(record), MAX_FLUSH_REQUESTS as nat)
        &&& counted
    }
}

/// The counters after a status that counts: `scheduled` raises the
/// scheduled count, `failed` and `rejected` raise the failed count.
pub open spec fn counters_after<M>(
    old: ProfilerState<M>,
    new: ProfilerState<M>,
    status: Seq<char>,
    counted: bool,
) -> bool {
    &&& new.reports_scheduled == (if counted && status == "scheduled"@ {
        old.reports_scheduled.saturating_add(1)
    } else {
        old.reports_scheduled
    })
    &&& new.reports_failed == (if counted && (status == "failed"@ || status == "rejected"@) {
        old.reports_failed.saturating_add(1)
    } else {
        old.reports_failed
    })
    &&& new.reports_written == old.reports_written
    &&& new.reports_in_progress == old.reports_in_progress
    &&& new.events_seen == old.events_seen
    &&& new.malformed_events == old.malformed_events
    &&& new.shutdown_report_written == old.shutdown_report_written
    &&& new.next_local_id == old.next_local_id
    &&& new.completed == old.completed
    &&& new.active == old.active
}

/// The diagnostic for a request that carries an error: a warning for a
/// rejected request, an error otherwise; nothing without an error.
pub open spec fn flush_diag_ok(
    old: Seq<crate::records::ProfilerDiagnostic>,
    new: Seq<crate::records::ProfilerDiagnostic>,
    record: FlushRequestRecord,
    at_unix_ms: u128,
    max: nat,
) -> bool {
    match record.error {
        Some(e) => diag_pushed(
            old,
            new,
            if record.status@ == "rejected"@ {
                "warn"@
            } else {
                "error"@
            },
            "profiler_flush_schedule_status"@,
            "profiler report flush request '"@ + record.request_id@ + "' status='"@
                + record.status@ + "': "@ + e@,
            Some(record.job_id@),
            at_unix_ms,
            max,
        ),
        None => new == old,
    }
}

/// The effect of recording a flush request status on the state.
pub open spec fn flush_recorded<M>(
    old: ProfilerState<M>,
    new: ProfilerState<M>,
    record: FlushRequestRecord,
    at_unix_ms: u128,
    max_diags: nat,
) -> bool {
    &&& exists|counted: bool|
        flush_log_updated(old.flush_requests@, new.flush_requests@, record, counted)
            && #[trigger] counters_after(old, new, record.status@, counted)
    &&& flush_diag_ok(old.diagnostics@, new.diagnostics@, record, at_unix_ms, max_diags)
    &&& new.next_local_id == old.next_local_id
}

/// Whether a flush reason names one of the final shutdown flushes.
pub fn is_shutdown_report_reason(reason: &str) -> (r: bool)
    ensures
        r == (reason@ == "service.shutdown_v1"@ || reason@ == "plugin.shutdown"@),
{
    str_eq(reason, "service.shutdown_v1") || str_eq(reason, "plugin.shutdown")
}

/// How a flush requested through the service runs.
pub enum FlushRoute {
    /// Build and write the report now.
    Sync,
    /// Hand the flush to the engine's job system.
    Async,
}

/// The newest position of a request with this id.
fn last_position(s: &std::collections::VecDeque<FlushRequestRecord>, id: &str) -> (r: Option<usize>)
    ensures
        match r {
            Some(k) => is_last_with_id(s@, id@, k as int),
            None => !has_id(s@, id@),
        },
{
    let target = chars_of(id);
    let mut i: usize = s.len();
    while i > 0
        invariant
            i <= s@.len(),
            target@ == id@,
            forall|j: int| i <= j < s@.len() ==> #[trigger] s@[j].request_id@ != id@,
        decreases i,
    {
        let c = chars_of(s[i - 1].request_id.as_str());
        if chars_eq(c.as_slice(), target.as_slice()) {
            return Some(i - 1);
        }
        i -= 1;
    }
    None
}

proof fn lemma_last_unique(s: Seq<FlushRequestRecord>, id: Seq<char>, k: int)
    requires
        is_last_with_id(s, id, k),
    ensures
        has_id(s, id),
        (choose|q: int| is_last_with_id(s, id, q)) == k,
{
    assert(s[k].request_id@ == id);
    let q = choose|q: int| is_last_with_id(s, id, q);
    assert(is_last_with_id(s, id, q));
    if q < k {
        assert(s[k].request_id@ != id);
    }
    if k < q {
        assert(s[q].request_id@ != id);
    }
}


/// No two requests in the log share an id.
pub open spec fn ids_unique(s: Seq<FlushRequestRecord>) -> bool {
    forall|i: int, j: int|
        0 <= i < j < s.len() ==> #[trigger] s[i].request_id@ != #[trigger] s[j].request_id@
}

/// A finished request stays finished: a `scheduled` report that arrives
/// after the worker completed or failed the request leaves its status as
/// it was and does not count.
pub proof fn lemma_late_schedule_keeps_terminal(
    old: Seq<FlushRequestRecord>,
    new: Seq<FlushRequestRecord>,
    record: FlushRequestRecord,
    counted: bool,
    k: int,
)
    requires
        flush_log_updated(old, new, record, counted),
        is_last_with_id(old, record.request_id@, k),
        is_terminal(old[k].status@),
        record.status@ == "scheduled"@,
    ensures
        new[k].status == old[k].status,
        new[k].completed_unix_ms == old[k].completed_unix_ms,
        new[k].error == old[k].error,
        !counted,
{
    lemma_last_unique(old, record.request_id@, k);
}

/// Recording a request keeps the ids in the log distinct.
pub proof fn lemma_flush_ids_stay_unique(
    old: Seq<FlushRequestRecord>,
    new: Seq<FlushRequestRecord>,
    record: FlushRequestRecord,
    counted: bool,
)
    requires
        flush_log_updated(old, new, record, counted),
        ids_unique(old),
    ensures
        ids_unique(new),
{
    if has_id(old, record.request_id@) {
        let k = choose|k: int| is_last_with_id(old, record.request_id@, k);
        assert(is_last_with_id(old, record.request_id@, k)) by {
            let w = choose|w: int| 0 <= w < old.len() && #[trigger] old[w].request_id@ == record.request_id@;
            lemma_last_exists(old, record.request_id@, w);
        }
        assert forall|i: int, j: int| 0 <= i < j < new.len() implies #[trigger] new[i].request_id@
            != #[trigger] new[j].request_id@ by {
            assert(new[k].request_id@ == old[k].request_id@);
            if i != k {
                assert(new[i] == old[i]);
            }
            if j != k {
                assert(new[j] == old[j]);
            }
        }
    } else {
        let full = old.push(record);
        assert forall|i: int, j: int| 0 <= i < j < full.len() implies #[trigger] full[i].request_id@
            != #[trigger] full[j].request_id@ by {
            if j == old.len() {
                assert(old[i].request_id@ != record.request_id@);
            }
        }
        if full.len() > MAX_FLUSH_REQUESTS {
            let d = full.len() - MAX_FLUSH_REQUESTS;
            assert forall|i: int, j: int| 0 <= i < j < new.len() implies #[trigger] new[i].request_id@
                != #[trigger] new[j].request_id@ by {
                assert(new[i] == full[i + d]);
                assert(new[j] == full[j + d]);
            }
        }
    }
}

proof fn lemma_last_exists(s: Seq<FlushRequestRecord>, id: Seq<char>, w: int)
    requires
        0 <= w < s.len(),
        s[w].request_id@ == id,
    ensures
        exists|k: int| is_last_with_id(s, id, k),
    decreases s.len() - w,
{
    if forall|j: int| w < j < s.len() ==> #[trigger] s[j].request_id@ != id {
        assert(is_last_with_id(s, id, w));
    } else {
        let j = choose|j: int| w < j < s.len() && #[trigger] s[j].request_id@ == id;
        lemma_last_exists(s, id, j);
    }
}

impl ProfilerRuntime {
    /// The route of a service flush: synchronous where the configured mode
    /// is `sync` in any ASCII case.
    pub fn flush_report_service(&self) -> (r: FlushRoute)
        ensures
            (r is Sync) == eq_ignore_case(self.cfg.scheduling.service_flush_mode@, "sync"@),
    {
        let mode = chars_of(self.cfg.scheduling.service_flush_mode.as_str());
        let sync = chars_of("sync");
        if chars_eq_ignore_case(mode.as_slice(), sync.as_slice()) {
            FlushRoute::Sync
        } else {
            FlushRoute::Async
        }
    }

    /// A flush request record with the given fields.
    pub fn flush_request_record(
        request_id: &str,
        job_id: &str,
        reason: &str,
        scheduling_mode: String,
        status: &str,
        requested_unix_ms: u128,
        completed_unix_ms: Option<u128>,
        engine_jobs_response: Option<String>,
        error: Option<String>,
    ) -> (r: FlushRequestRecord)
        ensures
            r.request_id@ == request_id@,
            r.job_id@ == job_id@,
            r.reason@ == reason@,
            r.scheduling_mode == scheduling_mode,
            r.status@ == status@,
            r.requested_unix_ms == requested_unix_ms,
            r.completed_unix_ms == completed_unix_ms,
            r.engine_jobs_response == engine_jobs_response,
            r.error == error,
    {
        FlushRequestRecord {
            request_id: request_id.to_owned(),
            job_id: job_id.to_owned(),
            reason: reason.to_owned(),
            scheduling_mode,
            status: status.to_owned(),
            requested_unix_ms,
            completed_unix_ms,
            engine_jobs_response,
            error,
        }
    }

    /// Records a new status of a flush request. The newest record with the
    /// same id is replaced; a late `scheduled` never overwrites a finished
    /// request (it only attaches the scheduler's reply and mode). A new id is
    /// appended, keeping the newest 256. A status counts where it is new:
    /// `scheduled` raises the scheduled count, `failed` and `rejected` the
    /// failed count. A request with an error adds a diagnostic.
    pub fn record_flush_request<M>(
        &self,
        state: &mut ProfilerState<M>,
        record: FlushRequestRecord,
        at_unix_ms: u128,
    )
        ensures
            flush_recorded(
                *old(state),
                *final(state),
                record,
                at_unix_ms,
                self.cfg.diagnostics.max_recent_diagnostics as nat,
            ),
    {
        let ghost old_log = state.flush_requests@;
        let ghost rec0 = record;
        let ghost st0 = *state;
        let mut record = record;
        let status = record.status.clone();
        let rejected = str_eq(status.as_str(), "rejected");
        let mut diag_msg: Option<String> = None;
        proof {
            reveal_strlit("profiler report flush request '");
            reveal_strlit("' status='");
            reveal_strlit("': ");
            reveal_strlit("scheduled");
            reveal_strlit("completed");
            reveal_strlit("failed");
            reveal_strlit("rejected");
            assert("scheduled"@.len() == 9);
            assert("failed"@.len() == 6);
            assert("rejected"@.len() == 8);
            assert("scheduled"@ != "failed"@);
            assert("scheduled"@ != "rejected"@);
        }
        if let Some(e) = &record.error {
            let mut msg = String::new();
            push_str(&mut msg, "profiler report flush request '");
            push_str(&mut msg, record.request_id.as_str());
            push_str(&mut msg, "' status='");
            push_str(&mut msg, status.as_str());
            push_str(&mut msg, "': ");
            push_str(&mut msg, e.as_str());
            diag_msg = Some(msg);
        }
        let job_id = record.job_id.clone();
        let is_scheduled = str_eq(status.as_str(), "scheduled");
        let counted: bool;
        match last_position(&state.flush_requests, record.request_id.as_str()) {
            Some(k) => {
                proof {
                    lemma_last_unique(old_log, rec0.request_id@, k as int);
                }
                let existing_status = state.flush_requests[k].status.clone();
                let terminal = str_eq(existing_status.as_str(), "completed") || str_eq(
                    existing_status.as_str(),
                    "failed",
                );
                if terminal && is_scheduled {
                    let existing = state.flush_requests.remove(k).unwrap();
                    let mut merged = existing;
                    if merged.engine_jobs_response.is_none() {
                        merged.engine_jobs_response = record.engine_jobs_response;
                    }
                    merged.scheduling_mode = record.scheduling_mode;
                    state.flush_requests.insert(k, merged);
                    counted = false;
                    assert(state.flush_requests@ =~= old_log.update(k as int, merged));
                } else {
                    let changed = !str_eq(existing_status.as_str(), status.as_str());
                    state.flush_requests.remove(k);
                    state.flush_requests.insert(k, record);
                    counted = changed;
                    assert(state.flush_requests@ =~= old_log.update(k as int, rec0));
                }
            },
            None => {
                state.flush_requests.push_back(record);
                let ghost full = old_log.push(rec0);
                while state.flush_requests.len() > MAX_FLUSH_REQUESTS
                    invariant
                        state.flush_requests@ == full.skip(full.len() - state.flush_requests@.len()),
                        state.flush_requests@.len() <= full.len(),
                        state.flush_requests@.len() >= MAX_FLUSH_REQUESTS || state.flush_requests@.len()
                            == full.len(),
                        state.diagnostics == st0.diagnostics,
                        state.completed == st0.completed,
                        state.active == st0.active,
                        state.reports_scheduled == st0.reports_scheduled,
                        state.reports_failed == st0.reports_failed,
                        state.reports_written == st0.reports_written,
                        state.reports_in_progress == st0.reports_in_progress,
                        state.events_seen == st0.events_seen,
                        state.malformed_events == st0.malformed_events,
                        state.shutdown_report_written == st0.shutdown_report_written,
                        state.next_local_id == st0.next_local_id,
                    decreases state.flush_requests@.len(),
                {
                    state.flush_requests.pop_front();
                    assert(state.flush_requests@ =~= full.skip(full.len() - state.flush_requests@.len()));
                }
                assert(full.skip(0) =~= full);
                counted = true;
            },
        }
        assert(flush_log_updated(old_log, state.flush_requests@, rec0, counted));
        if counted {
            if is_scheduled {
                state.reports_scheduled = state.reports_scheduled.saturating_add(1);
            } else if str_eq(status.as_str(), "failed") || rejected {
                state.reports_failed = state.reports_failed.saturating_add(1);
            }
        }
        assert(state.reports_written == st0.reports_written);
        assert(state.completed == st0.completed);
        assert(state.reports_scheduled == (if counted && rec0.status@ == "scheduled"@ {
            st0.reports_scheduled.saturating_add(1)
        } else {
            st0.reports_scheduled
        }));
        assert(state.reports_failed == (if counted && (rec0.status@ == "failed"@ || rec0.status@ == "rejected"@) {
            st0.reports_failed.saturating_add(1)
        } else {
            st0.reports_failed
        }));
        assert(counters_after(st0, *state, rec0.status@, counted));
        match diag_msg {
            Some(msg) => {
                let level = if rejected {
                    "warn"
                } else {
                    "error"
                };
                Self::push_diag_locked(
                    &self.cfg,
                    state,
                    level,
                    "profiler_flush_schedule_status",
                    msg,
                    Some(job_id),
                    at_unix_ms,
                );
            },
            None => {},
        }
        assert(counters_after(st0, *state, rec0.status@, counted));
        assert(state.next_local_id == st0.next_local_id);
    }

    /// Marks the newest request with this id finished at `at_unix_ms`:
    /// `failed` with the error where one is given (raising the failed
    /// count), `completed` otherwise. An unknown id changes nothing.
    pub fn mark_flush_request_completed<M>(
        &self,
        state: &mut ProfilerState<M>,
        request_id: &str,
        error: Option<String>,
        at_unix_ms: u128,
    )
        ensures
            final(state).flush_requests@.len() == old(state).flush_requests@.len(),
            has_id(old(state).flush_requests@, request_id@) ==> {
                let k = choose|k: int| is_last_with_id(old(state).flush_requests@, request_id@, k);
                let o = old(state).flush_requests@[k];
                let n = final(state).flush_requests@[k];
                &&& forall|j: int|
                    0 <= j < old(state).flush_requests@.len() && j != k
                        ==> #[trigger] final(state).flush_requests@[j]
                        == old(state).flush_requests@[j]
                &&& n.completed_unix_ms == Some(at_unix_ms)
                &&& n.status@ == (if error is Some {
                    "failed"@
                } else {
                    "completed"@
                })
                &&& n.error == (if error is Some {
                    error
                } else {
                    o.error
                })
                &&& n.request_id == o.request_id
                &&& n.job_id == o.job_id
                &&& n.reason == o.reason
                &&& n.scheduling_mode == o.scheduling_mode
                &&& n.requested_unix_ms == o.requested_unix_ms
                &&& n.engine_jobs_response == o.engine_jobs_response
                &&& final(state).reports_failed == (if error is Some {
                    old(state).reports_failed.saturating_add(1)
                } else {
                    old(state).reports_failed
                })
            },
            !has_id(old(state).flush_requests@, request_id@) ==> final(state).flush_requests
                == old(state).flush_requests && final(state).reports_failed == old(
                state,
            ).reports_failed,
            final(state).reports_scheduled == old(state).reports_scheduled,
            final(state).reports_written == old(state).reports_written,
            final(state).reports_in_progress == old(state).reports_in_progress,
            final(state).diagnostics == old(state).diagnostics,
            final(state).completed == old(state).completed,
            final(state).active == old(state).active,
            final(state).events_seen == old(state).events_seen,
            final(state).malformed_events == old(state).malformed_events,
            final(state).shutdown_report_written == old(state).shutdown_report_written,
            final(state).next_local_id == old(state).next_local_id,
    {
        let ghost old_log = state.flush_requests@;
        match last_position(&state.flush_requests, request_id) {
            Some(k) => {
                proof {
                    lemma_last_unique(old_log, request_id@, k as int);
                }
                let mut rec = state.flush_requests.remove(k).unwrap();
                rec.completed_unix_ms = Some(at_unix_ms);
                let failed = error.is_some();
                match error {
                    Some(e) => {
                        rec.status = "failed".to_owned();
                        rec.error = Some(e);
                    },
                    None => {
                        rec.status = "completed".to_owned();
                    },
                }
                state.flush_requests.insert(k, rec);
                assert(state.flush_requests@ =~= old_log.update(k as int, rec));
                if failed {
                    state.reports_failed = state.reports_failed.saturating_add(1);
                }
            },
            None => {},
        }
    }
}


/// The request an asynchronous flush hands to the engine's job system.
pub struct AsyncFlushPlan {
    pub request_id: String,
    pub job_id: String,
    pub reason: String,
    pub scheduling_mode: String,
    pub job_reason: String,
    pub requested_unix_ms: u128,
}

/// The answer of an asynchronous flush request.
pub struct AsyncFlushResult {
    pub accepted: bool,
    pub mode: String,
    pub request_id: String,
    pub job_id: String,
    /// The scheduler's reply, as JSON text.
    pub response: Option<String>,
    pub error: Option<String>,
}

/// The scheduler's reply to a job request: the reply document and its JSON
/// text.
pub struct SchedulerReply {
    pub response: Metadata,
    pub response_json: String,
}

/// The error of a flush that no scheduler takes.
pub open spec fn unavailable_error() -> Seq<char> {
    "engine.threading scheduler is unavailable; profiler-owned background fallback is not allowed"@
}

/// The error of a flush without the engine's job system.
pub open spec fn required_error() -> Seq<char> {
    "async profiler flush requires engine.threading; no profiler-owned background fallback is allowed"@
}

/// The error of a job request the scheduler declined without a detail.
pub open spec fn declined_error() -> Seq<char> {
    "engine.threading rejected profiler service-call job"@
}

/// The record fields of a flush request.
pub open spec fn flush_record_is(
    r: FlushRequestRecord,
    plan: AsyncFlushPlan,
    mode: Seq<char>,
    status: Seq<char>,
    completed: Option<u128>,
    response: Option<String>,
    error: Option<Seq<char>>,
) -> bool {
    &&& r.request_id@ == plan.request_id@
    &&& r.job_id@ == plan.job_id@
    &&& r.reason@ == plan.reason@
    &&& r.scheduling_mode@ == mode
    &&& r.status@ == status
    &&& r.requested_unix_ms == plan.requested_unix_ms
    &&& r.completed_unix_ms == completed
    &&& r.engine_jobs_response == response
    &&& (match r.error {
        Some(e) => error == Some(e@),
        None => error is None,
    })
}

/// A rejected answer.
pub open spec fn rejected_result(
    r: AsyncFlushResult,
    plan: AsyncFlushPlan,
    error: Seq<char>,
) -> bool {
    &&& !r.accepted
    &&& r.mode@ == "engine_threading_required"@
    &&& r.request_id@ == plan.request_id@
    &&& r.job_id@ == plan.job_id@
    &&& r.response is None
    &&& (match r.error {
        Some(e) => e@ == error,
        None => false,
    })
}

/// Whether a reply accepts the job: its `accepted` flag, true where absent.
pub open spec fn reply_accepts(m: Seq<crate::metadata::MetaEntry>) -> bool {
    match meta_get(m, "/accepted"@) {
        Some(MetaValue::Bool(b)) => b,
        _ => true,
    }
}

/// The error of a declined reply: its `detail` text, or a default.
pub open spec fn reply_error(m: Seq<crate::metadata::MetaEntry>) -> Seq<char> {
    match meta_get(m, "/detail"@) {
        Some(MetaValue::Str(d)) => d@,
        _ => declined_error(),
    }
}

impl ProfilerRuntime {
    /// Starts an asynchronous flush: makes the request and job ids, records
    /// the request as `scheduling`, and decides whether the engine's job
    /// system is asked. Where engine jobs are preferred and a scheduler is
    /// there, the plan is returned for the caller to hand over. Otherwise
    /// the request is recorded `rejected` and the rejection is returned:
    /// "scheduler unavailable" where engine jobs are preferred and required,
    /// "requires engine.threading" in every other case.
    pub fn begin_async_flush<M>(
        &self,
        state: &mut ProfilerState<M>,
        reason: &str,
        scheduler_available: bool,
        at_unix_ms: u128,
    ) -> (r: (AsyncFlushPlan, Option<AsyncFlushResult>))
        ensures
            r.0.request_id@ == crate::records::local_id_text(old(state).next_local_id),
            r.0.job_id@ == r.0.request_id@ + ".engine-jobs-flush"@,
            r.0.reason@ == reason@,
            r.0.scheduling_mode@ == ENGINE_THREADING_GATEWAY_ID@ + "/"@ + TASK_INVOKE_SERVICE_V1@,
            r.0.job_reason@ == reason@ + ".engine_threading"@,
            r.0.requested_unix_ms == at_unix_ms,
            final(state).next_local_id == old(state).next_local_id.saturating_add(1),
            (r.1 is None) == (self.cfg.scheduling.prefer_engine_jobs && scheduler_available),
            ({
                let max = self.cfg.diagnostics.max_recent_diagnostics as nat;
                let plan = r.0;
                exists|s1: ProfilerState<M>, s2: ProfilerState<M>, rec1: FlushRequestRecord|
                    {
                        &&& s1.next_local_id == old(state).next_local_id.saturating_add(1)
                        &&& s1.completed == old(state).completed
                        &&& s1.diagnostics == old(state).diagnostics
                        &&& s1.flush_requests == old(state).flush_requests
                        &&& s1.reports_scheduled == old(state).reports_scheduled
                        &&& s1.reports_failed == old(state).reports_failed
                        &&& s1.reports_written == old(state).reports_written
                        &&& s1.reports_in_progress == old(state).reports_in_progress
                        &&& s1.events_seen == old(state).events_seen
                        &&& s1.malformed_events == old(state).malformed_events
                        &&& s1.shutdown_report_written == old(state).shutdown_report_written
                        &&& flush_record_is(
                            rec1,
                            plan,
                            plan.scheduling_mode@,
                            "scheduling"@,
                            None,
                            None,
                            None,
                        )
                        &&& #[trigger] flush_recorded(s1, s2, rec1, at_unix_ms, max)
                        &&& match r.1 {
                            None => *final(state) == s2,
                            Some(res) => {
                                let unavailable = self.cfg.scheduling.prefer_engine_jobs
                                    && self.cfg.scheduling.require_engine_jobs;
                                let error = if unavailable {
                                    unavailable_error()
                                } else {
                                    required_error()
                                };
                                let mode = if unavailable {
                                    "engine_threading_unavailable"@
                                } else {
                                    "engine_threading_required"@
                                };
                                &&& rejected_result(res, plan, error)
                                &&& exists|rec2: FlushRequestRecord|
                                    flush_record_is(
                                        rec2,
                                        plan,
                                        mode,
                                        "rejected"@,
                                        Some(at_unix_ms),
                                        None,
                                        Some(error),
                                    ) && #[trigger] flush_recorded(
                                        s2,
                                        *final(state),
                                        rec2,
                                        at_unix_ms,
                                        max,
                                    )
                            },
                        }
                    }
            }),
    {
        let request_id = state.local_id();
        let ghost s1 = *state;
        let mut job_id = request_id.clone();
        push_str(&mut job_id, ".engine-jobs-flush");
        let mut scheduling_mode = String::new();
        push_str(&mut scheduling_mode, ENGINE_THREADING_GATEWAY_ID);
        push_str(&mut scheduling_mode, "/");
        push_str(&mut scheduling_mode, TASK_INVOKE_SERVICE_V1);
        let mut job_reason = reason.to_owned();
        push_str(&mut job_reason, ".engine_threading");
        let plan = AsyncFlushPlan {
            request_id,
            job_id,
            reason: reason.to_owned(),
            scheduling_mode,
            job_reason,
            requested_unix_ms: at_unix_ms,
        };
        let rec1 = Self::flush_request_record(
            plan.request_id.as_str(),
            plan.job_id.as_str(),
            plan.reason.as_str(),
            plan.scheduling_mode.clone(),
            "scheduling",
            at_unix_ms,
            None,
            None,
            None,
        );
        let ghost g1 = rec1;
        self.record_flush_request(state, rec1, at_unix_ms);
        let ghost s2 = *state;
        if self.cfg.scheduling.prefer_engine_jobs && scheduler_available {
            return (plan, None);
        }
        let unavailable = self.cfg.scheduling.prefer_engine_jobs
            && self.cfg.scheduling.require_engine_jobs;
        let error: String = if unavailable {
            "engine.threading scheduler is unavailable; profiler-owned background fallback is not allowed".to_owned()
        } else {
            "async profiler flush requires engine.threading; no profiler-owned background fallback is allowed".to_owned()
        };
        let mode: String = if unavailable {
            "engine_threading_unavailable".to_owned()
        } else {
            "engine_threading_required".to_owned()
        };
        let rec2 = Self::flush_request_record(
            plan.request_id.as_str(),
            plan.job_id.as_str(),
            plan.reason.as_str(),
            mode,
            "rejected",
            at_unix_ms,
            Some(at_unix_ms),
            None,
            Some(error.clone()),
        );
        let ghost g2 = rec2;
        self.record_flush_request(state, rec2, at_unix_ms);
        let result = AsyncFlushResult {
            accepted: false,
            mode: "engine_threading_required".to_owned(),
            request_id: plan.request_id.clone(),
            job_id: plan.job_id.clone(),
            response: None,
            error: Some(error),
        };
        assert(flush_recorded(s2, *state, g2, at_unix_ms, self.cfg.diagnostics.max_recent_diagnostics as nat));
        (plan, Some(result))
    }

    /// Settles an asynchronous flush with the scheduler's answer. An accepted
    /// reply records the request `scheduled` with the reply; a declined one
    /// records it `rejected` with the reply's detail (or a default error);
    /// a failed hand-over records it `rejected` with the failure. The answer
    /// says whether the job was accepted, in mode `engine_threading`, or
    /// `engine_threading_required` where the hand-over failed.
    pub fn settle_async_flush<M>(
        &self,
        state: &mut ProfilerState<M>,
        plan: &AsyncFlushPlan,
        outcome: Result<SchedulerReply, String>,
        at_unix_ms: u128,
    ) -> (r: AsyncFlushResult)
        ensures
            r.request_id@ == plan.request_id@,
            r.job_id@ == plan.job_id@,
            ({
                let max = self.cfg.diagnostics.max_recent_diagnostics as nat;
                match outcome {
                    Ok(reply) => {
                        let accepted = reply_accepts(reply.response.entries@);
                        &&& r.accepted == accepted
                        &&& r.mode@ == "engine_threading"@
                        &&& r.response == Some(reply.response_json)
                        &&& r.error is None
                        &&& exists|rec: FlushRequestRecord|
                            {
                                &&& if accepted {
                                    flush_record_is(
                                        rec,
                                        *plan,
                                        plan.scheduling_mode@,
                                        "scheduled"@,
                                        None,
                                        Some(reply.response_json),
                                        None,
                                    )
                                } else {
                                    flush_record_is(
                                        rec,
                                        *plan,
                                        plan.scheduling_mode@,
                                        "rejected"@,
                                        Some(at_unix_ms),
                                        Some(reply.response_json),
                                        Some(reply_error(reply.response.entries@)),
                                    )
                                }
                                &&& #[trigger] flush_recorded(
                                    *old(state),
                                    *final(state),
                                    rec,
                                    at_unix_ms,
                                    max,
                                )
                            }
                    },
                    Err(e) => {
                        &&& rejected_result(r, *plan, e@)
                        &&& exists|rec: FlushRequestRecord|
                            flush_record_is(
                                rec,
                                *plan,
                                plan.scheduling_mode@,
                                "rejected"@,
                                Some(at_unix_ms),
                                None,
                                Some(e@),
                            ) && #[trigger] flush_recorded(
                                *old(state),
                                *final(state),
                                rec,
                                at_unix_ms,
                                max,
                            )
                    },
                }
            }),
    {
        match outcome {
            Ok(reply) => {
                let accepted = match reply.response.get("/accepted") {
                    Some(MetaValue::Bool(b)) => b,
                    _ => true,
                };
                let rec = if accepted {
                    Self::flush_request_record(
                        plan.request_id.as_str(),
                        plan.job_id.as_str(),
                        plan.reason.as_str(),
                        plan.scheduling_mode.clone(),
                        "scheduled",
                        plan.requested_unix_ms,
                        None,
                        Some(reply.response_json.clone()),
                        None,
                    )
                } else {
                    let error = match reply.response.get("/detail") {
                        Some(MetaValue::Str(d)) => d,
                        _ => "engine.threading rejected profiler service-call job".to_owned(),
                    };
                    Self::flush_request_record(
                        plan.request_id.as_str(),
                        plan.job_id.as_str(),
                        plan.reason.as_str(),
                        plan.scheduling_mode.clone(),
                        "rejected",
                        plan.requested_unix_ms,
                        Some(at_unix_ms),
                        Some(reply.response_json.clone()),
                        Some(error),
                    )
                };
                let ghost g = rec;
                self.record_flush_request(state, rec, at_unix_ms);
                assert(flush_recorded(*old(state), *state, g, at_unix_ms, self.cfg.diagnostics.max_recent_diagnostics as nat));
                AsyncFlushResult {
                    accepted,
                    mode: "engine_threading".to_owned(),
                    request_id: plan.request_id.clone(),
                    job_id: plan.job_id.clone(),
                    response: Some(reply.response_json),
                    error: None,
                }
            },
            Err(e) => {
                let rec = Self::flush_request_record(
                    plan.request_id.as_str(),
                    plan.job_id.as_str(),
                    plan.reason.as_str(),
                    plan.scheduling_mode.clone(),
                    "rejected",
                    plan.requested_unix_ms,
                    Some(at_unix_ms),
                    None,
                    Some(e.clone()),
                );
                let ghost g = rec;
                self.record_flush_request(state, rec, at_unix_ms);
                assert(flush_recorded(*old(state), *state, g, at_unix_ms, self.cfg.diagnostics.max_recent_diagnostics as nat));
                AsyncFlushResult {
                    accepted: false,
                    mode: "engine_threading_required".to_owned(),
                    request_id: plan.request_id.clone(),
                    job_id: plan.job_id.clone(),
                    response: None,
                    error: Some(e),
                }
            },
        }
    }
}

} // verus!
