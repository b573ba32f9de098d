//! The profiler's records and its bounded state.
//!
//! Wall-clock measurements (elapsed time, budgets, loads, progress) live in
//! the record's `timing` payload, which the library carries without reading.
//! What the library decides on from them stands in `LoadFacts`.
use std::collections::VecDeque;

use vstd::prelude::*;

use crate::metadata::Metadata;
use crate::text::{decimal, decimal_chars, push_chars, push_str};

verus! {

/// Comparisons on a record's measurements, kept beside them by whoever
/// fills `timing`.
#[derive(Clone, Debug)]
pub struct LoadFacts {
    /// `elapsed_ms` reached the slow-job threshold of the configuration.
    pub slow: bool,
    /// `load` (elapsed over budget) reached 1.0.
    pub over_budget: bool,
    /// The budget tree's load of the sample reached 1.0: the finite,
    /// non-negative elapsed time over the finite, non-negative budget, or,
    /// without a budget above zero, the finite, non-negative `load`.
    pub sample_over_budget: bool,
    /// A GPU wait of more than zero milliseconds was reported.
    pub gpu_wait_positive: bool,
    /// Both `elapsed_ms` and `frame_budget_ms` are known and the elapsed
    /// time exceeds the frame budget (floored at 0.001 ms).
    pub elapsed_over_frame_budget: bool,
}

/// One observed unit of engine or plugin work.
#[derive(Clone, Debug)]
pub struct JobRecord<M> {
    pub id: String,
    pub name: String,
    pub category: String,
    pub source: String,
    pub lane: String,
    pub priority: String,
    pub dependency_group: String,
    pub frame_id: Option<u64>,
    pub status: String,
    pub detail: String,
    pub scheduled: bool,
    pub blocked: bool,
    pub polling: bool,
    pub waited_on_gpu: bool,
    pub stayed_async: bool,
    pub exceeded_frame_budget: bool,
    pub wait_reason: Option<String>,
    pub async_mode: Option<String>,
    pub started_unix_ms: u128,
    pub ended_unix_ms: Option<u128>,
    pub payload_bytes: Option<u64>,
    pub output_bytes: Option<u64>,
    pub error: Option<String>,
    pub metadata: Metadata,
    pub facts: LoadFacts,
    pub timing: M,
}

/// A warning or error the profiler keeps about itself or a job.
#[derive(Clone, Debug)]
pub struct ProfilerDiagnostic {
    pub level: String,
    pub code: String,
    pub message: String,
    pub job_id: Option<String>,
    pub at_unix_ms: u128,
}

/// The life of one report flush request.
#[derive(Clone, Debug)]
pub struct FlushRequestRecord {
    pub request_id: String,
    pub job_id: String,
    pub reason: String,
    pub scheduling_mode: String,
    pub status: String,
    pub requested_unix_ms: u128,
    pub completed_unix_ms: Option<u128>,
    /// The scheduler's reply, as JSON text.
    pub engine_jobs_response: Option<String>,
    pub error: Option<String>,
}

/// Which event families are recorded.
#[derive(Clone, Debug)]
pub struct CaptureConfig {
    pub service_calls: bool,
    pub plugin_lifecycle: bool,
    pub task_status_events: bool,
    pub custom_events: bool,
}

/// Bounds of the kept history.
#[derive(Clone, Debug)]
pub struct DiagnosticsConfig {
    pub max_recent_jobs: usize,
    pub max_recent_diagnostics: usize,
}

/// How report flushes are run.
#[derive(Clone, Debug)]
pub struct SchedulingConfig {
    pub service_flush_mode: String,
    pub prefer_engine_jobs: bool,
    pub require_engine_jobs: bool,
}

/// The settings that the library's decisions read.
#[derive(Clone, Debug)]
pub struct ProfilerConfig {
    pub enabled: bool,
    pub ignore_self: bool,
    pub capture: CaptureConfig,
    pub diagnostics: DiagnosticsConfig,
    pub scheduling: SchedulingConfig,
}

/// The profiler's history: the running jobs, then completed jobs,
/// diagnostics and flush requests, each a bounded ring, and the report
/// counters.
#[derive(Clone, Debug)]
pub struct ProfilerState<M> {
    /// Jobs that began and have not ended, at most one per id.
    pub active: Vec<JobRecord<M>>,
    pub completed: VecDeque<JobRecord<M>>,
    pub diagnostics: VecDeque<ProfilerDiagnostic>,
    pub flush_requests: VecDeque<FlushRequestRecord>,
    pub events_seen: u64,
    pub malformed_events: u64,
    pub reports_written: u64,
    pub reports_in_progress: u64,
    pub reports_scheduled: u64,
    pub reports_failed: u64,
    pub shutdown_report_written: bool,
    /// The number the next locally made id carries.
    pub next_local_id: u64,
}

/// The profiler with its configuration.
pub struct ProfilerRuntime {
    pub cfg: ProfilerConfig,
}

impl<M> ProfilerState<M> {
    /// A state with empty history and zero counters.
    pub fn new() -> (r: ProfilerState<M>)
        ensures
            r.active@.len() == 0,
            r.completed@.len() == 0,
            r.diagnostics@.len() == 0,
            r.flush_requests@.len() == 0,
            r.events_seen == 0,
            r.malformed_events == 0,
            r.reports_written == 0,
            r.reports_in_progress == 0,
            r.reports_scheduled == 0,
            r.reports_failed == 0,
            !r.shutdown_report_written,
            r.next_local_id == 1,
    {
        ProfilerState {
            active: Vec::new(),
            completed: VecDeque::new(),
            diagnostics: VecDeque::new(),
            flush_requests: VecDeque::new(),
            events_seen: 0,
            malformed_events: 0,
            reports_written: 0,
            reports_in_progress: 0,
            reports_scheduled: 0,
            reports_failed: 0,
            shutdown_report_written: false,
            next_local_id: 1,
        }
    }

    /// A fresh id for work that arrived without one: `local-` and the
    /// running number.
    pub fn local_id(&mut self) -> (r: String)
        ensures
            r@ == local_id_text(old(self).next_local_id),
            final(self).next_local_id == old(self).next_local_id.saturating_add(1),
            final(self).active == old(self).active,
            final(self).completed == old(self).completed,
            final(self).diagnostics == old(self).diagnostics,
            final(self).flush_requests == old(self).flush_requests,
            final(self).events_seen == old(self).events_seen,
            final(self).malformed_events == old(self).malformed_events,
            final(self).reports_written == old(self).reports_written,
            final(self).reports_in_progress == old(self).reports_in_progress,
            final(self).reports_scheduled == old(self).reports_scheduled,
            final(self).reports_failed == old(self).reports_failed,
            final(self).shutdown_report_written == old(self).shutdown_report_written,
    {
        let n = self.next_local_id;
        self.next_local_id = n.saturating_add(1);
        let mut out = String::new();
        push_str(&mut out, "local-");
        let d = decimal_chars(n);
        push_chars(&mut out, d.as_slice());
        out
    }
}

/// The text of a locally made id.
pub open spec fn local_id_text(n: u64) -> Seq<char> {
    "local-"@ + decimal(n as nat)
}

impl ProfilerRuntime {
    /// A profiler running with `cfg`.
    pub fn new(cfg: ProfilerConfig) -> (r: ProfilerRuntime)
        ensures
            r.cfg == cfg,
    {
        ProfilerRuntime { cfg }
    }
}

} // verus!
