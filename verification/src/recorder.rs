//! Recording job events: begins put a job among the running ones, ends
//! and terminal statuses move it to the completed history, one-shot events
//! complete at once together with the parts of their breakdown.
//!
//! Clock readings and arithmetic on milliseconds belong to the host, which
//! implements `Measure`; the library keeps what it returns with the records
//! and decides only on the `LoadFacts` and on texts.
use vstd::prelude::*;

use crate::classification::{classified, refresh_record_classification, sanitize_non_empty, sanitize_spec};
use crate::jobs::{
    recently_completed, recently_completed_duplicate_terminal, completion_diags_ok, completion_step, completions, counters_kept, diag_pushed, evict_to,
    lemma_completions_keep, lemma_completions_none, lemma_completions_push,
};
use crate::events::{is_high_frequency_zero_cost_event, is_input_name, is_input_source};
use crate::metadata::{
    digits_u64, parse_digits_u64, merge_metadata, merged, meta_get, number_text_at, number_text_value_at, number_u64_at, number_u64_value_at, opt_view, text_at, text_of_first_present,
    text_of_present, text_value_at, MetaEntry, MetaValue, Metadata,
};
use crate::parsing::{
    breakdown_entries, first_float, float_entries, float_text, is_float_text, ms_candidates_from,
    pair_texts, parse_breakdown_parts, parse_first_ms_from_text,
};
use crate::records::{local_id_text, JobRecord, LoadFacts, ProfilerConfig, ProfilerRuntime, ProfilerState};
use crate::text::{
    chars_eq, chars_of, decimal, decimal_chars, eq_ignore_case, lower_chars, lower_seq, push_chars, push_str, str_eq, string_of, trim_chars,
    trim_seq, ws_tokens,
};

verus! {

/// The configured budget that a job falls under when its event names none.
pub enum BudgetKind {
    ServiceCall,
    PluginLifecycle,
    TaskStatus,
    ReportFlush,
    CustomJob,
}

/// The budget kind of a category.
pub open spec fn budget_kind_of(category: Seq<char>) -> BudgetKind {
    if category == "service_call"@ {
        BudgetKind::ServiceCall
    } else if category == "plugin_lifecycle"@ {
        BudgetKind::PluginLifecycle
    } else if category == "task_status"@ {
        BudgetKind::TaskStatus
    } else if category == "profiler.report.flush"@ {
        BudgetKind::ReportFlush
    } else {
        BudgetKind::CustomJob
    }
}

/// The measurements of a job that starts and ends within one report: its
/// timing and facts, when it started, and what the host read of its elapsed
/// time.
pub struct Stamp<M> {
    pub timing: M,
    pub facts: LoadFacts,
    pub started_unix_ms: u128,
    /// The elapsed time is above zero.
    pub elapsed_positive: bool,
    /// A frame budget above zero is given and the elapsed time exceeds it.
    pub over_frame_budget: bool,
    /// The elapsed time as a JSON number.
    pub elapsed_text: String,
}

/// The host's clock and its arithmetic on milliseconds. Nothing here is
/// promised to the library, which only carries the results.
pub trait Measure<M> {
    /// The timing of a job that begins now, from the budget kind of its
    /// category, the begin event and the job's metadata.
    fn begun(&self, kind: BudgetKind, payload: &Metadata, metadata: &Metadata) -> (M, LoadFacts);

    /// The timing of the running job `running` after a status event.
    fn progressed(&self, running: &M, kind: BudgetKind, payload: &Metadata, metadata: &Metadata) -> (
        M,
        LoadFacts,
    );

    /// The timing of the running job `running` as it ends now.
    fn ended(&self, running: &M, payload: &Metadata, metadata: &Metadata) -> (M, LoadFacts);

    /// The timing of a job known only from its end event `payload`, whose
    /// elapsed time is the number `elapsed_text`.
    fn ended_late(&self, kind: BudgetKind, elapsed_text: &str, payload: &Metadata, metadata: &Metadata) -> Stamp<M>;

    /// The timing of a one-shot event whose elapsed time is the number
    /// `elapsed_text`, where it states one.
    fn observed(&self, kind: BudgetKind, elapsed_text: &Option<String>, payload: &Metadata) -> Stamp<
        M,
    >;

    /// The timing of a part of the job timed `parent` that took the number
    /// `elapsed_text` of milliseconds.
    fn part(&self, parent: &M, elapsed_text: &str) -> Stamp<M>;

    /// The measurements of a job as the slow-job warning shows them.
    fn describe(&self, timing: &M) -> String;

    /// The time now, in milliseconds since the Unix epoch.
    fn now_unix_ms(&self) -> u128;
}

/// A job begin event.
pub struct JobBeginWire {
    pub id: Option<String>,
    pub name: Option<String>,
    pub label: Option<String>,
    pub category: Option<String>,
    pub source: Option<String>,
    pub detail: Option<String>,
    pub payload_bytes: Option<u64>,
    pub metadata: Option<Metadata>,
    pub lane: Option<String>,
    pub priority: Option<String>,
    pub dependency_group: Option<String>,
    pub frame_id: Option<u64>,
    pub wait_reason: Option<String>,
    pub async_mode: Option<String>,
}

/// A job end event.
pub struct JobEndWire {
    pub id: String,
    pub status: Option<String>,
    pub detail: Option<String>,
    pub error: Option<String>,
    pub output_bytes: Option<u64>,
    pub metadata: Option<Metadata>,
    pub lane: Option<String>,
    pub priority: Option<String>,
    pub dependency_group: Option<String>,
    pub frame_id: Option<u64>,
    pub wait_reason: Option<String>,
    pub async_mode: Option<String>,
}

/// A task status event.
pub struct JobStatusWire {
    pub id: String,
    pub phase: Option<String>,
    pub kind: Option<String>,
    pub label: Option<String>,
    pub detail: Option<String>,
    pub metadata: Option<Metadata>,
    pub lane: Option<String>,
    pub priority: Option<String>,
    pub dependency_group: Option<String>,
    pub frame_id: Option<u64>,
    pub wait_reason: Option<String>,
    pub async_mode: Option<String>,
}

/// No two running jobs share an id.
pub open spec fn active_unique<M>(s: Seq<JobRecord<M>>) -> bool {
    forall|i: int, j: int|
        0 <= i < s.len() && 0 <= j < s.len() && #[trigger] s[i].id@ == #[trigger] s[j].id@ ==> i
            == j
}

/// A running job has the id.
pub open spec fn has_active<M>(s: Seq<JobRecord<M>>, id: Seq<char>) -> bool {
    exists|i: int| 0 <= i < s.len() && #[trigger] s[i].id@ == id
}

/// The position of the running job with the id.
pub open spec fn active_index<M>(s: Seq<JobRecord<M>>, id: Seq<char>) -> int {
    choose|i: int| 0 <= i < s.len() && #[trigger] s[i].id@ == id
}

/// `new` is `old` with `job` in place of the running job of its id, or
/// with `job` added where none runs.
pub open spec fn active_put<M>(old: Seq<JobRecord<M>>, new: Seq<JobRecord<M>>, job: JobRecord<M>) -> bool {
    if has_active(old, job.id@) {
        new == old.update(active_index(old, job.id@), job)
    } else {
        new == old.push(job)
    }
}

/// The text of an optional string, empty when absent.
pub open spec fn text_or_empty(s: Option<String>) -> Seq<char> {
    match s {
        Some(t) => t@,
        None => Seq::empty(),
    }
}

/// The id a begin event gets: its own, else the next local one.
pub open spec fn begin_id(wire: JobBeginWire, next_local_id: u64) -> Seq<char> {
    match wire.id {
        Some(i) => i@,
        None => local_id_text(next_local_id),
    }
}

/// The record a begin event makes, before classification, apart from its
/// start time, timing and facts.
pub open spec fn begin_fields<M>(
    raw: JobRecord<M>,
    wire: JobBeginWire,
    payload: Metadata,
    id: Seq<char>,
) -> bool {
    &&& raw.id@ == id
    &&& raw.name@ == (match wire.name {
        Some(n) => n@,
        None => match wire.label {
            Some(l) => l@,
            None => id,
        },
    })
    &&& raw.category@ == sanitize_spec(opt_view(wire.category), "custom_job"@)
    &&& raw.source@ == (match wire.source {
        Some(s) => s@,
        None => "event"@,
    })
    &&& raw.lane@ == sanitize_spec(opt_view(wire.lane), "unspecified"@)
    &&& raw.priority@ == sanitize_spec(opt_view(wire.priority), "unspecified"@)
    &&& raw.dependency_group@ == sanitize_spec(opt_view(wire.dependency_group), "unspecified"@)
    &&& raw.frame_id == wire.frame_id
    &&& raw.status@ == "running"@
    &&& raw.detail@ == text_or_empty(wire.detail)
    &&& raw.scheduled
    &&& !raw.blocked && !raw.polling && !raw.waited_on_gpu && !raw.stayed_async
        && !raw.exceeded_frame_budget
    &&& raw.wait_reason == wire.wait_reason
    &&& raw.async_mode == wire.async_mode
    &&& raw.ended_unix_ms is None
    &&& raw.payload_bytes == wire.payload_bytes
    &&& raw.output_bytes is None
    &&& raw.error is None
    &&& raw.metadata == (match wire.metadata {
        Some(m) => m,
        None => payload,
    })
}

/// The warning for a job that begins again before its end, where a job of
/// its id runs; no change otherwise.
pub open spec fn restart_diag<M>(
    active: Seq<JobRecord<M>>,
    old: Seq<crate::records::ProfilerDiagnostic>,
    new: Seq<crate::records::ProfilerDiagnostic>,
    id: Seq<char>,
    max: nat,
) -> bool {
    if has_active(active, id) {
        exists|t: u128|
            diag_pushed(
                old,
                new,
                "warn"@,
                "job_restarted_without_end"@,
                "job '"@ + id + "' was started again before an end event"@,
                Some(id),
                t,
                max,
            )
    } else {
        new == old
    }
}

/// What a begin event does to the state: its job runs, in place of a
/// running job of the same id, which is reported.
pub open spec fn begin_recorded<M>(
    max_diags: nat,
    old: ProfilerState<M>,
    new: ProfilerState<M>,
    wire: JobBeginWire,
    payload: Metadata,
) -> bool {
    &&& exists|raw: JobRecord<M>, job: JobRecord<M>|
        {
            &&& begin_fields(raw, wire, payload, begin_id(wire, old.next_local_id))
            &&& #[trigger] classified(raw, job)
            &&& active_put(old.active@, new.active@, job)
            &&& restart_diag(old.active@, old.diagnostics@, new.diagnostics@, job.id@, max_diags)
        }
    &&& new.completed == old.completed
    &&& reports_kept(old, new)
    &&& new.next_local_id == (if wire.id is None {
        old.next_local_id.saturating_add(1)
    } else {
        old.next_local_id
    })
}

/// Everything of the state but its running jobs, history and local ids.
pub open spec fn reports_kept<M>(old: ProfilerState<M>, new: ProfilerState<M>) -> bool {
    &&& new.flush_requests == old.flush_requests
    &&& new.events_seen == old.events_seen
    &&& new.malformed_events == old.malformed_events
    &&& new.reports_written == old.reports_written
    &&& new.reports_in_progress == old.reports_in_progress
    &&& new.reports_scheduled == old.reports_scheduled
    &&& new.reports_failed == old.reports_failed
    &&& new.shutdown_report_written == old.shutdown_report_written
}

proof fn lemma_active_index<M>(s: Seq<JobRecord<M>>, i: int)
    requires
        active_unique(s),
        0 <= i < s.len(),
    ensures
        has_active(s, s[i].id@),
        active_index(s, s[i].id@) == i,
{
    assert(s[i].id@ == s[i].id@);
    let k = active_index(s, s[i].id@);
    assert(0 <= k < s.len() && s[k].id@ == s[i].id@);
}

/// The position of the running job with the id.
pub fn find_active<M>(state: &ProfilerState<M>, id: &str) -> (r: Option<usize>)
    requires
        active_unique(state.active@),
    ensures
        match r {
            Some(i) => has_active(state.active@, id@) && i == active_index(state.active@, id@)
                && i < state.active@.len(),
            None => !has_active(state.active@, id@),
        },
{
    let target = chars_of(id);
    let mut i: usize = 0;
    while i < state.active.len()
        invariant
            i <= state.active@.len(),
            target@ == id@,
            active_unique(state.active@),
            forall|j: int| 0 <= j < i ==> #[trigger] state.active@[j].id@ != id@,
        decreases state.active@.len() - i,
    {
        let k = chars_of(state.active[i].id.as_str());
        if chars_eq(k.as_slice(), target.as_slice()) {
            proof {
                lemma_active_index(state.active@, i as int);
            }
            return Some(i);
        }
        i += 1;
    }
    None
}

/// The trimmed value where it is given and not blank, else `fallback`.
fn sanitize_opt(value: &Option<String>, fallback: &str) -> (r: String)
    ensures
        r@ == sanitize_spec(opt_view(*value), fallback@),
{
    match value {
        Some(v) => sanitize_non_empty(Some(v.as_str()), fallback),
        None => sanitize_non_empty(None, fallback),
    }
}

/// The budget kind of a category.
pub fn default_budget_for(category: &str) -> (r: BudgetKind)
    ensures
        r == budget_kind_of(category@),
{
    if str_eq(category, "service_call") {
        BudgetKind::ServiceCall
    } else if str_eq(category, "plugin_lifecycle") {
        BudgetKind::PluginLifecycle
    } else if str_eq(category, "task_status") {
        BudgetKind::TaskStatus
    } else if str_eq(category, "profiler.report.flush") {
        BudgetKind::ReportFlush
    } else {
        BudgetKind::CustomJob
    }
}

/// Each named category runs under its own budget: `service_call` under the
/// service-call budget, `plugin_lifecycle` under the plugin-lifecycle
/// budget, `task_status` under the task-status budget,
/// `profiler.report.flush` under the report-flush budget, and every other
/// category under the custom-job budget.
pub proof fn lemma_budget_kind_by_category(category: Seq<char>)
    ensures
        budget_kind_of(category) is ServiceCall <==> category == "service_call"@,
        budget_kind_of(category) is PluginLifecycle <==> category == "plugin_lifecycle"@,
        budget_kind_of(category) is TaskStatus <==> category == "task_status"@,
        budget_kind_of(category) is ReportFlush <==> category == "profiler.report.flush"@,
        budget_kind_of(category) is CustomJob <==> (category != "service_call"@ && category
            != "plugin_lifecycle"@ && category != "task_status"@ && category != "profiler.report.flush"@),
{
    reveal_strlit("service_call");
    reveal_strlit("plugin_lifecycle");
    reveal_strlit("task_status");
    reveal_strlit("profiler.report.flush");
    assert("service_call"@ != "plugin_lifecycle"@ ) by {
        assert("service_call"@[0] != "plugin_lifecycle"@[0]);
    }
    assert("service_call"@ != "task_status"@) by {
        assert("service_call"@[0] != "task_status"@[0]);
    }
    assert("service_call"@ != "profiler.report.flush"@) by {
        assert("service_call"@[0] != "profiler.report.flush"@[0]);
    }
    assert("plugin_lifecycle"@ != "task_status"@) by {
        assert("plugin_lifecycle"@[0] != "task_status"@[0]);
    }
    assert("plugin_lifecycle"@ != "profiler.report.flush"@) by {
        assert("plugin_lifecycle"@[1] != "profiler.report.flush"@[1]);
    }
    assert("task_status"@ != "profiler.report.flush"@) by {
        assert("task_status"@[0] != "profiler.report.flush"@[0]);
    }
}

impl ProfilerRuntime {
    /// Records a begin event: the job runs under its id, or under a fresh
    /// local id where the event names none. A job of the same id that was
    /// still running is replaced, with a warning.
    pub fn record_begin_locked<M, C: Measure<M>>(
        &self,
        state: &mut ProfilerState<M>,
        clock: &C,
        wire: JobBeginWire,
        payload: Metadata,
    )
        requires
            active_unique(old(state).active@),
        ensures
            active_unique(final(state).active@),
            begin_recorded(
                self.cfg.diagnostics.max_recent_diagnostics as nat,
                *old(state),
                *final(state),
                wire,
                payload,
            ),
    {
        let ghost w = wire;
        let ghost p0 = payload;
        let ghost id_text = begin_id(wire, old(state).next_local_id);
        let id = match wire.id {
            Some(i) => i,
            None => state.local_id(),
        };
        assert(id@ == id_text);
        let category = sanitize_opt(&wire.category, "custom_job");
        let kind = default_budget_for(category.as_str());
        let name = match wire.name {
            Some(n) => n,
            None => match wire.label {
                Some(l) => l,
                None => id.clone(),
            },
        };
        let (timing, facts) = match &wire.metadata {
            Some(m) => clock.begun(kind, &payload, m),
            None => clock.begun(kind, &payload, &payload),
        };
        let now = clock.now_unix_ms();
        let metadata = match wire.metadata {
            Some(m) => m,
            None => payload,
        };
        let source = match wire.source {
            Some(s) => s,
            None => "event".to_owned(),
        };
        let detail = match wire.detail {
            Some(d) => d,
            None => String::new(),
        };
        proof {
            reveal_strlit("event");
            reveal_strlit("running");
        }
        let mut record = JobRecord {
            id: id.clone(),
            name,
            category,
            source,
            lane: sanitize_opt(&wire.lane, "unspecified"),
            priority: sanitize_opt(&wire.priority, "unspecified"),
            dependency_group: sanitize_opt(&wire.dependency_group, "unspecified"),
            frame_id: wire.frame_id,
            status: "running".to_owned(),
            detail,
            scheduled: true,
            blocked: false,
            polling: false,
            waited_on_gpu: false,
            stayed_async: false,
            exceeded_frame_budget: false,
            wait_reason: wire.wait_reason,
            async_mode: wire.async_mode,
            started_unix_ms: now,
            ended_unix_ms: None,
            payload_bytes: wire.payload_bytes,
            output_bytes: None,
            error: None,
            metadata,
            facts,
            timing,
        };
        let ghost raw = record;
        assert(begin_fields(raw, w, p0, id_text));
        refresh_record_classification(&mut record);
        let ghost job = record;
        let ghost st1 = *state;
        match find_active(state, id.as_str()) {
            Some(i) => {
                state.active.set(i, record);
                let mut msg = String::new();
                push_str(&mut msg, "job '");
                push_str(&mut msg, id.as_str());
                push_str(&mut msg, "' was started again before an end event");
                proof {
                    reveal_strlit("job '");
                    reveal_strlit("' was started again before an end event");
                }
                assert(msg@ =~= "job '"@ + id@ + "' was started again before an end event"@);
                Self::push_diag_locked(
                    &self.cfg,
                    state,
                    "warn",
                    "job_restarted_without_end",
                    msg,
                    Some(id),
                    now,
                );
                assert forall|a: int, b: int|
                    0 <= a < state.active@.len() && 0 <= b < state.active@.len()
                        && #[trigger] state.active@[a].id@ == #[trigger] state.active@[b].id@
                        implies a == b by {
                    assert(st1.active@[i as int].id@ == job.id@);
                    if a != i && b != i {
                        assert(st1.active@[a].id@ == st1.active@[b].id@);
                    } else if a == i && b != i {
                        assert(st1.active@[b].id@ == st1.active@[i as int].id@);
                    } else if b == i && a != i {
                        assert(st1.active@[a].id@ == st1.active@[i as int].id@);
                    }
                }
            },
            None => {
                state.active.push(record);
                assert forall|a: int, b: int|
                    0 <= a < state.active@.len() && 0 <= b < state.active@.len()
                        && #[trigger] state.active@[a].id@ == #[trigger] state.active@[b].id@
                        implies a == b by {
                    let n = st1.active@.len() as int;
                    if a < n && b < n {
                        assert(st1.active@[a].id@ == st1.active@[b].id@);
                    } else if a < n {
                        assert(st1.active@[a].id@ == job.id@);
                    } else if b < n {
                        assert(st1.active@[b].id@ == job.id@);
                    }
                }
            },
        }
        assert(restart_diag(
            old(state).active@,
            old(state).diagnostics@,
            state.diagnostics@,
            job.id@,
            self.cfg.diagnostics.max_recent_diagnostics as nat,
        ));
    }
}

/// The trimmed breakdown list of a record's metadata, empty where it has
/// none.
pub open spec fn breakdown_of(es: Seq<MetaEntry>) -> Seq<char> {
    match text_at(es, "/breakdown"@) {
        Some(t) => trim_seq(t),
        None => Seq::empty(),
    }
}

/// The parts that a record's breakdown list names, with their number texts.
pub open spec fn part_entries<M>(parent: JobRecord<M>) -> Seq<(Seq<char>, Seq<char>)> {
    let b = breakdown_of(parent.metadata.entries@);
    if b.len() == 0 {
        Seq::empty()
    } else {
        float_entries(breakdown_entries(ws_tokens(b)))
    }
}

/// A string value with the text.
pub open spec fn is_str_value(v: MetaValue, t: Seq<char>) -> bool {
    match v {
        MetaValue::Str(s) => s@ == t,
        _ => false,
    }
}

/// A number value written as the text.
pub open spec fn is_number_value(v: MetaValue, t: Seq<char>) -> bool {
    match v {
        MetaValue::Number(s) => s@ == t,
        _ => false,
    }
}

/// The metadata of a part: the part's schema, the parent's id, name,
/// category, source and frame id, the part's name and elapsed time, and
/// nothing else.
pub open spec fn part_metadata<M>(es: Seq<MetaEntry>, parent: JobRecord<M>, part: Seq<char>) -> bool {
    &&& es.len() == 9
    &&& es[0].pointer@ == Seq::<char>::empty() && es[0].value == MetaValue::Object
    &&& es[1].pointer@ == "/schema"@ && is_str_value(es[1].value, "newengine.profiler.breakdown_part.v1"@)
    &&& es[2].pointer@ == "/parent_id"@ && is_str_value(es[2].value, parent.id@)
    &&& es[3].pointer@ == "/parent_name"@ && is_str_value(es[3].value, parent.name@)
    &&& es[4].pointer@ == "/part"@ && is_str_value(es[4].value, part)
    &&& es[5].pointer@ == "/elapsed_ms"@ && es[5].value is Number
    &&& es[6].pointer@ == "/parent_category"@ && is_str_value(es[6].value, parent.category@)
    &&& es[7].pointer@ == "/parent_source"@ && is_str_value(es[7].value, parent.source@)
    &&& es[8].pointer@ == "/parent_frame_id"@
    &&& (match parent.frame_id {
        Some(f) => is_number_value(es[8].value, decimal(f as nat)),
        None => es[8].value == MetaValue::Null,
    })
}

/// The record of part `k` of `parent`, before classification, apart from
/// its times, timing and facts.
pub open spec fn part_fields<M>(
    parent: JobRecord<M>,
    k: int,
    entry: (Seq<char>, Seq<char>),
    raw: JobRecord<M>,
) -> bool {
    &&& raw.id@ == parent.id@ + "::part::"@ + decimal((k + 1) as nat)
    &&& raw.name@ == parent.name@ + "/"@ + entry.0
    &&& raw.category@ == parent.category@ + ".breakdown"@
    &&& raw.source == parent.source
    &&& raw.lane == parent.lane
    &&& raw.priority == parent.priority
    &&& raw.dependency_group == parent.dependency_group
    &&& raw.frame_id == parent.frame_id
    &&& raw.status@ == "completed"@
    &&& raw.detail@ == "breakdown part from '"@ + parent.name@ + "'"@
    &&& raw.scheduled == parent.scheduled
    &&& raw.blocked == parent.blocked
    &&& raw.polling == parent.polling
    &&& raw.waited_on_gpu == parent.waited_on_gpu
    &&& raw.stayed_async == parent.stayed_async
    &&& !raw.exceeded_frame_budget
    &&& raw.wait_reason == parent.wait_reason
    &&& raw.async_mode == parent.async_mode
    &&& raw.ended_unix_ms is Some
    &&& raw.payload_bytes is None
    &&& raw.output_bytes is None
    &&& raw.error is None
    &&& part_metadata(raw.metadata.entries@, parent, entry.0)
}

/// `rec` is the classified record of part `k` of `parent`.
pub open spec fn part_ok<M>(
    parent: JobRecord<M>,
    k: int,
    entry: (Seq<char>, Seq<char>),
    rec: JobRecord<M>,
) -> bool {
    exists|raw: JobRecord<M>| part_fields(parent, k, entry, raw) && #[trigger] classified(raw, rec)
}

/// The part records of `parent`, in the order of its breakdown list.
pub open spec fn parts_of<M>(parent: JobRecord<M>, parts: Seq<JobRecord<M>>) -> bool {
    &&& parts.len() == part_entries(parent).len()
    &&& forall|k: int|
        0 <= k < parts.len() ==> part_ok(parent, k, part_entries(parent)[k], #[trigger] parts[k])
}

impl ProfilerRuntime {
    /// The records of the parts that a record's `breakdown` metadata lists,
    /// such as `decode=1.5ms upload=2ms`: each names its parent and is
    /// filed under the parent's category with `.breakdown` appended.
    pub fn build_breakdown_part_records<M, C: Measure<M>>(&self, clock: &C, parent: &JobRecord<M>) -> (r:
        Vec<JobRecord<M>>)
        ensures
            parts_of(*parent, r@),
    {
        let mut out: Vec<JobRecord<M>> = Vec::new();
        let text = match text_value_at(&parent.metadata, "/breakdown") {
            Some(t) => t,
            None => {
                return out;
            },
        };
        let tc = chars_of(text.as_str());
        let trimmed = trim_chars(tc.as_slice());
        if trimmed.len() == 0 {
            return out;
        }
        let b = string_of(trimmed.as_slice());
        let parts = parse_breakdown_parts(b.as_str());
        let ghost entries = part_entries(*parent);
        assert(pair_texts(parts@) == entries);
        proof {
            reveal_strlit("::part::");
            reveal_strlit("/");
            reveal_strlit(".breakdown");
            reveal_strlit("completed");
            reveal_strlit("breakdown part from '");
            reveal_strlit("'");
        }
        let mut k: usize = 0;
        while k < parts.len()
            invariant
                k <= parts@.len(),
                pair_texts(parts@) == entries,
                entries == part_entries(*parent),
                out@.len() == k,
                forall|q: int| 0 <= q < k ==> part_ok(*parent, q, entries[q], #[trigger] out@[q]),
            decreases parts@.len() - k,
        {
            let (part_name, raw_ms) = (&parts[k].0, &parts[k].1);
            assert(entries[k as int] == (part_name@, raw_ms@));
            let stamp = clock.part(&parent.timing, raw_ms.as_str());
            let now = clock.now_unix_ms();
            let mut id = String::new();
            push_str(&mut id, parent.id.as_str());
            push_str(&mut id, "::part::");
            let n = decimal_chars((k + 1) as u64);
            push_chars(&mut id, n.as_slice());
            let mut name = String::new();
            push_str(&mut name, parent.name.as_str());
            push_str(&mut name, "/");
            push_str(&mut name, part_name.as_str());
            let mut category = String::new();
            push_str(&mut category, parent.category.as_str());
            push_str(&mut category, ".breakdown");
            let mut detail = String::new();
            push_str(&mut detail, "breakdown part from '");
            push_str(&mut detail, parent.name.as_str());
            push_str(&mut detail, "'");
            let frame = match parent.frame_id {
                Some(f) => {
                    let d = decimal_chars(f);
                    MetaValue::Number(string_of(d.as_slice()))
                },
                None => MetaValue::Null,
            };
            let entries_v = vec![
                MetaEntry { pointer: String::new(), value: MetaValue::Object },
                MetaEntry {
                    pointer: "/schema".to_owned(),
                    value: MetaValue::Str("newengine.profiler.breakdown_part.v1".to_owned()),
                },
                MetaEntry { pointer: "/parent_id".to_owned(), value: MetaValue::Str(parent.id.clone()) },
                MetaEntry {
                    pointer: "/parent_name".to_owned(),
                    value: MetaValue::Str(parent.name.clone()),
                },
                MetaEntry { pointer: "/part".to_owned(), value: MetaValue::Str(part_name.clone()) },
                MetaEntry {
                    pointer: "/elapsed_ms".to_owned(),
                    value: MetaValue::Number(stamp.elapsed_text),
                },
                MetaEntry {
                    pointer: "/parent_category".to_owned(),
                    value: MetaValue::Str(parent.category.clone()),
                },
                MetaEntry {
                    pointer: "/parent_source".to_owned(),
                    value: MetaValue::Str(parent.source.clone()),
                },
                MetaEntry { pointer: "/parent_frame_id".to_owned(), value: frame },
            ];
            let mut record = JobRecord {
                id,
                name,
                category,
                source: parent.source.clone(),
                lane: parent.lane.clone(),
                priority: parent.priority.clone(),
                dependency_group: parent.dependency_group.clone(),
                frame_id: parent.frame_id,
                status: "completed".to_owned(),
                detail,
                scheduled: parent.scheduled,
                blocked: parent.blocked,
                polling: parent.polling,
                waited_on_gpu: parent.waited_on_gpu,
                stayed_async: parent.stayed_async,
                exceeded_frame_budget: false,
                wait_reason: parent.wait_reason.clone(),
                async_mode: parent.async_mode.clone(),
                started_unix_ms: stamp.started_unix_ms,
                ended_unix_ms: Some(now),
                payload_bytes: None,
                output_bytes: None,
                error: None,
                metadata: Metadata { entries: entries_v },
                facts: stamp.facts,
                timing: stamp.timing,
            };
            let ghost raw = record;
            assert(part_fields(*parent, k as int, entries[k as int], raw));
            refresh_record_classification(&mut record);
            out.push(record);
            assert(out@[k as int] == record);
            k += 1;
        }
        out
    }
}

/// A duration at `p`: a number, or a string whose trimmed text parses as
/// one; the number's text.
pub open spec fn ms_text_at(es: Seq<MetaEntry>, p: Seq<char>) -> Option<Seq<char>> {
    match meta_get(es, p) {
        Some(MetaValue::Number(t)) => Some(t@),
        Some(MetaValue::Str(s)) => if float_text(trim_seq(s@)) {
            Some(trim_seq(s@))
        } else {
            None
        },
        _ => None,
    }
}

/// Where an event may state its elapsed time, in order.
pub open spec fn elapsed_paths() -> Seq<Seq<char>> {
    seq![
        "/elapsed_ms"@,
        "/duration_ms"@,
        "/total_ms"@,
        "/metadata/elapsed_ms"@,
        "/metadata/duration_ms"@,
        "/metadata/total_ms"@,
    ]
}

/// The first duration found along the paths.
pub open spec fn first_ms_at(es: Seq<MetaEntry>, paths: Seq<Seq<char>>) -> Option<Seq<char>>
    decreases paths.len(),
{
    if paths.len() == 0 {
        None
    } else {
        match ms_text_at(es, paths[0]) {
            Some(t) => Some(t),
            None => first_ms_at(es, paths.drop_first()),
        }
    }
}

/// The elapsed time an event states: a duration field, else the first
/// millisecond phrase of its detail (or message) text.
pub open spec fn event_elapsed_spec(es: Seq<MetaEntry>) -> Option<Seq<char>> {
    match first_ms_at(es, elapsed_paths()) {
        Some(t) => Some(t),
        None => match text_of_present(es, "/detail"@, "/message"@) {
            Some(d) => first_float(ms_candidates_from(ws_tokens(d), None)),
            None => None,
        },
    }
}

/// The duration at `p`.
fn ms_text_value_at(value: &Metadata, p: &str) -> (r: Option<String>)
    ensures
        opt_view(r) == ms_text_at(value.entries@, p@),
{
    match value.get(p) {
        Some(MetaValue::Number(t)) => Some(t),
        Some(MetaValue::Str(s)) => {
            let c = chars_of(s.as_str());
            let t = trim_chars(c.as_slice());
            if is_float_text(t.as_slice()) {
                Some(string_of(t.as_slice()))
            } else {
                None
            }
        },
        _ => None,
    }
}

/// The number text of the elapsed time an event states, if any: the first
/// of `elapsed_ms`, `duration_ms`, `total_ms` (at the top or under
/// `metadata`) that holds a number, else the first millisecond phrase in
/// its `detail` or `message`.
pub fn event_elapsed_ms(value: &Metadata) -> (r: Option<String>)
    ensures
        opt_view(r) == event_elapsed_spec(value.entries@),
{
    let paths = [
        "/elapsed_ms",
        "/duration_ms",
        "/total_ms",
        "/metadata/elapsed_ms",
        "/metadata/duration_ms",
        "/metadata/total_ms",
    ];
    let ghost ps = elapsed_paths();
    assert(paths@.map_values(|p: &str| p@) =~= ps);
    let mut i: usize = 0;
    assert(ps.skip(0) =~= ps);
    while i < 6
        invariant
            i <= 6,
            paths@.map_values(|p: &str| p@) == ps,
            ps == elapsed_paths(),
            first_ms_at(value.entries@, ps) == first_ms_at(value.entries@, ps.skip(i as int)),
        decreases 6 - i,
    {
        assert(ps.skip(i as int)[0] == paths@[i as int]@);
        assert(ps.skip(i as int).drop_first() =~= ps.skip(i + 1));
        match ms_text_value_at(value, paths[i]) {
            Some(t) => {
                return Some(t);
            },
            None => {},
        }
        i += 1;
    }
    assert(ps.skip(6).len() == 0);
    match text_of_first_present(value, "/detail", "/message") {
        Some(d) => parse_first_ms_from_text(d.as_str()),
        None => None,
    }
}

/// The id of a one-shot event: its `id`, else its `task_id` (whichever is
/// present, where it is a string), else the next local id.
pub open spec fn event_id(es: Seq<MetaEntry>, next_local_id: u64) -> Seq<char> {
    match text_of_present(es, "/id"@, "/task_id"@) {
        Some(t) => t,
        None => local_id_text(next_local_id),
    }
}

/// A mode that keeps work off the calling thread: given, not blank, and
/// not `sync`.
pub open spec fn async_mode_given(es: Seq<MetaEntry>) -> bool {
    match text_at(es, "/async_mode"@) {
        Some(m) => trim_seq(m).len() > 0 && m != "sync"@,
        None => false,
    }
}

/// The record a one-shot event makes on `topic`, before classification,
/// apart from its times, timing, facts and frame-budget flag.
pub open spec fn event_fields<M>(raw: JobRecord<M>, value: Metadata, topic: Seq<char>, id: Seq<char>) -> bool {
    let es = value.entries@;
    &&& raw.id@ == id
    &&& raw.category@ == sanitize_spec(text_at(es, "/category"@), "event"@)
    &&& raw.source@ == sanitize_spec(text_at(es, "/source"@), "event_bus"@)
    &&& raw.name@ == sanitize_spec(text_of_present(es, "/name"@, "/label"@), topic)
    &&& raw.detail@ == (match text_of_present(es, "/detail"@, "/message"@) {
        Some(d) => d,
        None => "event observed"@,
    })
    &&& raw.lane@ == sanitize_spec(text_at(es, "/lane"@), "unspecified"@)
    &&& raw.priority@ == sanitize_spec(text_at(es, "/priority"@), "unspecified"@)
    &&& raw.dependency_group@ == sanitize_spec(text_at(es, "/dependency_group"@), "unspecified"@)
    &&& raw.frame_id == number_u64_at(es, "/frame_id"@)
    &&& raw.status@ == "completed"@
    &&& !raw.scheduled && !raw.blocked && !raw.polling
    &&& raw.waited_on_gpu == raw.facts.gpu_wait_positive
    &&& raw.stayed_async == async_mode_given(es)
    &&& opt_view(raw.wait_reason) == text_at(es, "/wait_reason"@)
    &&& opt_view(raw.async_mode) == text_at(es, "/async_mode"@)
    &&& raw.ended_unix_ms is Some
    &&& raw.payload_bytes is None
    &&& raw.output_bytes is None
    &&& raw.error is None
    &&& raw.metadata == value
}

/// An input event that is dropped where it took no time.
pub open spec fn zero_cost_candidate(category: Seq<char>, source: Seq<char>, name: Seq<char>) -> bool {
    eq_ignore_case(category, "event"@) && is_input_source(source) && is_input_name(name)
}

/// `new` is `old` after completing `job` and then its breakdown parts.
pub open spec fn completed_with_parts<M>(
    max_jobs: nat,
    max_diags: nat,
    old: ProfilerState<M>,
    new: ProfilerState<M>,
    job: JobRecord<M>,
) -> bool {
    exists|parts: Seq<JobRecord<M>>|
        parts_of(job, parts) && #[trigger] completions(
            max_jobs,
            max_diags,
            old,
            new,
            seq![job] + parts,
        )
}

/// `new` holds the completed record that the one-shot event `value` on
/// `topic` makes under `id`, and its parts, completed from a state `s0`
/// that has the history of `old`.
pub open spec fn event_recorded<M>(
    max_jobs: nat,
    max_diags: nat,
    old: ProfilerState<M>,
    new: ProfilerState<M>,
    value: Metadata,
    topic: Seq<char>,
    id: Seq<char>,
) -> bool {
    exists|raw: JobRecord<M>, job: JobRecord<M>, s0: ProfilerState<M>|
        #![trigger classified(raw, job), completed_with_parts(max_jobs, max_diags, s0, new, job)]
        {
            &&& event_fields(raw, value, topic, id)
            &&& classified(raw, job)
            &&& s0.completed == old.completed
            &&& s0.diagnostics == old.diagnostics
            &&& completed_with_parts(max_jobs, max_diags, s0, new, job)
        }
}

/// `new` is `old` after recording the event with id `id` as measured by
/// `stamp`: the record carries the stamp's timing, facts, start time and
/// frame-budget verdict.
pub open spec fn observed_recorded<M>(
    max_jobs: nat,
    max_diags: nat,
    old: ProfilerState<M>,
    new: ProfilerState<M>,
    value: Metadata,
    topic: Seq<char>,
    id: Seq<char>,
    stamp: Stamp<M>,
) -> bool {
    exists|raw: JobRecord<M>, job: JobRecord<M>, s0: ProfilerState<M>|
        #![trigger classified(raw, job), completed_with_parts(max_jobs, max_diags, s0, new, job)]
        {
            &&& event_fields(raw, value, topic, id)
            &&& raw.timing == stamp.timing
            &&& raw.facts == stamp.facts
            &&& raw.started_unix_ms == stamp.started_unix_ms
            &&& raw.exceeded_frame_budget == stamp.over_frame_budget
            &&& classified(raw, job)
            &&& s0.completed == old.completed
            &&& s0.diagnostics == old.diagnostics
            &&& completed_with_parts(max_jobs, max_diags, s0, new, job)
        }
}

impl ProfilerRuntime {
    /// Completes one record, with the measurements the host describes.
    fn complete_measured<M, C: Measure<M>>(
        &self,
        state: &mut ProfilerState<M>,
        clock: &C,
        record: JobRecord<M>,
    )
        ensures
            completion_step(
                self.cfg.diagnostics.max_recent_jobs as nat,
                self.cfg.diagnostics.max_recent_diagnostics as nat,
                *old(state),
                *final(state),
                record,
            ),
    {
        let detail = clock.describe(&record.timing);
        let now = clock.now_unix_ms();
        self.complete_job_locked(state, record, detail.as_str(), now);
        proof {
            reveal(completion_step);
        }
    }

    /// Completes `record` and then its breakdown parts.
    fn complete_with_parts<M, C: Measure<M>>(
        &self,
        state: &mut ProfilerState<M>,
        clock: &C,
        record: JobRecord<M>,
    )
        ensures
            completed_with_parts(
                self.cfg.diagnostics.max_recent_jobs as nat,
                self.cfg.diagnostics.max_recent_diagnostics as nat,
                *old(state),
                *final(state),
                record,
            ),
    {
        let maxj = Ghost(self.cfg.diagnostics.max_recent_jobs as nat);
        let maxd = Ghost(self.cfg.diagnostics.max_recent_diagnostics as nat);
        let parts = self.build_breakdown_part_records(clock, &record);
        let ghost ps = parts@;
        let ghost s0 = *state;
        let ghost rec = record;
        self.complete_measured(state, clock, record);
        proof {
            lemma_completions_none(maxj@, maxd@, s0);
            assert(completion_step(maxj@, maxd@, s0, *state, rec));
            lemma_completions_push(maxj@, maxd@, s0, s0, *state, Seq::empty(), rec);
            assert(Seq::<JobRecord<M>>::empty().push(rec) =~= seq![rec]);
        }
        let mut parts = parts;
        let n = parts.len();
        assert(ps.len() == n);
        let mut done: usize = 0;
        assert(ps.skip(0) =~= ps);
        assert(seq![rec] + ps.take(0) =~= seq![rec]);
        while parts.len() > 0
            invariant
                done <= ps.len(),
                ps.len() <= usize::MAX,
                parts@ == ps.skip(done as int),
                completions(maxj@, maxd@, s0, *state, seq![rec] + ps.take(done as int)),
                maxj@ == self.cfg.diagnostics.max_recent_jobs as nat,
                maxd@ == self.cfg.diagnostics.max_recent_diagnostics as nat,
            decreases parts@.len(),
        {
            let part = parts.remove(0);
            assert(part == ps[done as int]);
            assert(parts@ =~= ps.skip(done + 1));
            let ghost mid = *state;
            self.complete_measured(state, clock, part);
            proof {
                lemma_completions_push(
                    maxj@,
                    maxd@,
                    s0,
                    mid,
                    *state,
                    seq![rec] + ps.take(done as int),
                    ps[done as int],
                );
                assert((seq![rec] + ps.take(done as int)).push(ps[done as int]) =~= seq![rec]
                    + ps.take(done + 1));
            }
            done += 1;
        }
        assert(ps.take(done as int) =~= ps);
    }
}

/// What a one-shot event does to the state: a zero-cost input event is
/// dropped, any other is recorded with its parts; an event without an id
/// takes the next local id either way.
pub open spec fn custom_recorded<M>(
    max_jobs: nat,
    max_diags: nat,
    old: ProfilerState<M>,
    new: ProfilerState<M>,
    topic: Seq<char>,
    value: Metadata,
) -> bool {
    let es = value.entries@;
    &&& new.active == old.active
    &&& new.flush_requests == old.flush_requests
    &&& reports_kept(old, new)
    &&& new.next_local_id == (if text_of_present(es, "/id"@, "/task_id"@) is None {
        old.next_local_id.saturating_add(1)
    } else {
        old.next_local_id
    })
    &&& ({
        &&& zero_cost_candidate(
            sanitize_spec(text_at(es, "/category"@), "event"@),
            sanitize_spec(text_at(es, "/source"@), "event_bus"@),
            sanitize_spec(text_of_present(es, "/name"@, "/label"@), topic),
        )
        &&& new.completed == old.completed
        &&& new.diagnostics == old.diagnostics
    } || event_recorded(max_jobs, max_diags, old, new, value, topic, event_id(es, old.next_local_id)))
}

impl ProfilerRuntime {
    /// Records a one-shot event on `topic` as a completed job, followed by
    /// the parts of its breakdown. Zero-cost input events (mouse, key and
    /// text events from input sources) are dropped.
    pub fn record_custom_event_locked<M, C: Measure<M>>(
        &self,
        state: &mut ProfilerState<M>,
        clock: &C,
        topic: &str,
        value: Metadata,
    )
        ensures
            custom_recorded(
                self.cfg.diagnostics.max_recent_jobs as nat,
                self.cfg.diagnostics.max_recent_diagnostics as nat,
                *old(state),
                *final(state),
                topic@,
                value,
            ),
    {
        let ghost v0 = value;
        let ghost id_text = event_id(value.entries@, old(state).next_local_id);
        let id = match text_of_first_present(&value, "/id", "/task_id") {
            Some(i) => i,
            None => state.local_id(),
        };
        assert(id@ == id_text);
        let elapsed = event_elapsed_ms(&value);
        let kind = default_budget_for("custom_event");
        let stamp = clock.observed(kind, &elapsed, &value);
        let ghost s1 = *state;
        let ghost st = stamp;
        self.record_observed_event(state, clock, topic, value, id, stamp);
        assert(observed_recorded(
            self.cfg.diagnostics.max_recent_jobs as nat,
            self.cfg.diagnostics.max_recent_diagnostics as nat,
            s1,
            *state,
            v0,
            topic@,
            id_text,
            st,
        ) ==> event_recorded(
            self.cfg.diagnostics.max_recent_jobs as nat,
            self.cfg.diagnostics.max_recent_diagnostics as nat,
            *old(state),
            *state,
            v0,
            topic@,
            id_text,
        ));
    }

    /// Records a one-shot event whose id is `id`, measured by the host as
    /// `stamp`, followed by the parts of its breakdown. It is dropped, and
    /// nothing changes, exactly where it is a zero-cost input event (an input
    /// source's mouse, key or text event) that took no time.
    pub fn record_observed_event<M, C: Measure<M>>(
        &self,
        state: &mut ProfilerState<M>,
        clock: &C,
        topic: &str,
        value: Metadata,
        id: String,
        stamp: Stamp<M>,
    )
        ensures
            ({
                let es = value.entries@;
                let dropped = zero_cost_candidate(
                    sanitize_spec(text_at(es, "/category"@), "event"@),
                    sanitize_spec(text_at(es, "/source"@), "event_bus"@),
                    sanitize_spec(text_of_present(es, "/name"@, "/label"@), topic@),
                ) && !stamp.elapsed_positive;
                &&& dropped ==> *final(state) == *old(state)
                &&& !dropped ==> {
                    &&& final(state).active == old(state).active
                    &&& reports_kept(*old(state), *final(state))
                    &&& final(state).next_local_id == old(state).next_local_id
                    &&& observed_recorded(
                        self.cfg.diagnostics.max_recent_jobs as nat,
                        self.cfg.diagnostics.max_recent_diagnostics as nat,
                        *old(state),
                        *final(state),
                        value,
                        topic@,
                        id@,
                        stamp,
                    )
                }
            }),
    {
        let ghost v0 = value;
        let ghost id_text = id@;
        let ghost s0 = *state;
        let category = sanitize_opt(&text_value_at(&value, "/category"), "event");
        let source = sanitize_opt(&text_value_at(&value, "/source"), "event_bus");
        let name = sanitize_opt(&text_of_first_present(&value, "/name", "/label"), topic);
        let detail = match text_of_first_present(&value, "/detail", "/message") {
            Some(d) => d,
            None => "event observed".to_owned(),
        };
        if is_high_frequency_zero_cost_event(
            category.as_str(),
            source.as_str(),
            name.as_str(),
            stamp.elapsed_positive,
        ) {
            return ;
        }
        let now = clock.now_unix_ms();
        let mode = text_value_at(&value, "/async_mode");
        let stayed = match &mode {
            Some(m) => {
                let c = chars_of(m.as_str());
                let t = trim_chars(c.as_slice());
                t.len() > 0 && !str_eq(m.as_str(), "sync")
            },
            None => false,
        };
        proof {
            reveal_strlit("event observed");
            reveal_strlit("completed");
        }
        let mut record = JobRecord {
            id,
            name,
            category,
            source,
            lane: sanitize_opt(&text_value_at(&value, "/lane"), "unspecified"),
            priority: sanitize_opt(&text_value_at(&value, "/priority"), "unspecified"),
            dependency_group: sanitize_opt(
                &text_value_at(&value, "/dependency_group"),
                "unspecified",
            ),
            frame_id: number_u64_value_at(&value, "/frame_id"),
            status: "completed".to_owned(),
            detail,
            scheduled: false,
            blocked: false,
            polling: false,
            waited_on_gpu: stamp.facts.gpu_wait_positive,
            stayed_async: stayed,
            exceeded_frame_budget: stamp.over_frame_budget,
            wait_reason: text_value_at(&value, "/wait_reason"),
            async_mode: mode,
            started_unix_ms: stamp.started_unix_ms,
            ended_unix_ms: Some(now),
            payload_bytes: None,
            output_bytes: None,
            error: None,
            metadata: value,
            facts: stamp.facts,
            timing: stamp.timing,
        };
        let ghost raw = record;
        assert(event_fields(raw, v0, topic@, id_text));
        refresh_record_classification(&mut record);
        let ghost job = record;
        self.complete_with_parts(state, clock, record);
        proof {
            let parts = choose|parts: Seq<JobRecord<M>>|
                parts_of(job, parts) && #[trigger] completions(
                    self.cfg.diagnostics.max_recent_jobs as nat,
                    self.cfg.diagnostics.max_recent_diagnostics as nat,
                    s0,
                    *state,
                    seq![job] + parts,
                );
            lemma_completions_keep(
                self.cfg.diagnostics.max_recent_jobs as nat,
                self.cfg.diagnostics.max_recent_diagnostics as nat,
                s0,
                *state,
                seq![job] + parts,
            );
        }
        assert(observed_recorded(
            self.cfg.diagnostics.max_recent_jobs as nat,
            self.cfg.diagnostics.max_recent_diagnostics as nat,
            *old(state),
            *state,
            v0,
            topic@,
            id_text,
            stamp,
        )) by {
            assert(classified(raw, job));
            assert(completed_with_parts(
                self.cfg.diagnostics.max_recent_jobs as nat,
                self.cfg.diagnostics.max_recent_diagnostics as nat,
                s0,
                *state,
                job,
            ));
        }
    }
}

/// The status an end event leaves: its own, else `failed` where it carries
/// an error, else `completed`.
pub open spec fn end_status(wire: JobEndWire) -> Seq<char> {
    match wire.status {
        Some(s) => s@,
        None => if wire.error is Some {
            "failed"@
        } else {
            "completed"@
        },
    }
}

/// A label after an event that may carry a new one: the event's, trimmed,
/// where it is not blank.
pub open spec fn relabel(v: Option<String>, current: Seq<char>) -> Seq<char> {
    match v {
        Some(t) => sanitize_spec(Some(t@), current),
        None => current,
    }
}

/// The metadata an end event brings: its `metadata`, else the event itself.
pub open spec fn end_metadata(wire: JobEndWire, payload: Metadata) -> Seq<MetaEntry> {
    match wire.metadata {
        Some(m) => m.entries@,
        None => payload.entries@,
    }
}

/// The running job `run` as the end event `wire` leaves it, before
/// classification, apart from its end time, timing and facts.
pub open spec fn end_fields<M>(run: JobRecord<M>, raw: JobRecord<M>, wire: JobEndWire, payload: Metadata) -> bool {
    &&& raw.id == run.id
    &&& raw.name == run.name
    &&& raw.category == run.category
    &&& raw.source == run.source
    &&& raw.status@ == end_status(wire)
    &&& raw.detail@ == (match wire.detail {
        Some(d) => d@,
        None => run.detail@,
    })
    &&& raw.started_unix_ms == run.started_unix_ms
    &&& raw.ended_unix_ms is Some
    &&& raw.payload_bytes == run.payload_bytes
    &&& raw.output_bytes == wire.output_bytes
    &&& raw.error == wire.error
    &&& raw.metadata.entries@ == merged(run.metadata.entries@, end_metadata(wire, payload))
    &&& raw.lane@ == relabel(wire.lane, run.lane@)
    &&& raw.priority@ == relabel(wire.priority, run.priority@)
    &&& raw.dependency_group@ == relabel(wire.dependency_group, run.dependency_group@)
    &&& raw.frame_id == (match wire.frame_id {
        Some(f) => Some(f),
        None => run.frame_id,
    })
    &&& raw.wait_reason == (match wire.wait_reason {
        Some(w) => Some(w),
        None => run.wait_reason,
    })
    &&& raw.async_mode == (match wire.async_mode {
        Some(a) => Some(a),
        None => run.async_mode,
    })
    &&& raw.scheduled == run.scheduled
    &&& raw.blocked == run.blocked
    &&& raw.polling == run.polling
    &&& raw.waited_on_gpu == run.waited_on_gpu
    &&& raw.stayed_async == run.stayed_async
    &&& raw.exceeded_frame_budget == run.exceeded_frame_budget
}

/// The elapsed time that a plugin load's metadata records: `total_ms`, else
/// `elapsed_ms`, where it is a number.
pub open spec fn late_elapsed(es: Seq<MetaEntry>) -> Option<Seq<char>> {
    match number_text_at(es, "/total_ms"@) {
        Some(t) => Some(t),
        None => number_text_at(es, "/elapsed_ms"@),
    }
}

/// The end of a plugin load whose begin went unseen can be recovered: its
/// operation is `load_one` and it records its elapsed time.
pub open spec fn late_recoverable(es: Seq<MetaEntry>) -> bool {
    text_at(es, "/operation"@) == Some("load_one"@) && late_elapsed(es) is Some
}

/// The plugin-load record recovered from an end event under `id`, before
/// classification, apart from its times, timing and facts.
pub open spec fn late_fields<M>(raw: JobRecord<M>, id: Seq<char>, wire: JobEndWire, meta: Seq<MetaEntry>) -> bool {
    &&& raw.id@ == id
    &&& raw.name@ == "plugin_load:"@ + (match text_at(meta, "/path"@) {
        Some(p) => p,
        None => id,
    })
    &&& raw.category@ == "plugin_lifecycle"@
    &&& raw.source@ == "newengine-plugin-host"@
    &&& raw.lane@ == "Plugin"@
    &&& raw.priority@ == "Normal"@
    &&& raw.dependency_group@ == "plugin-host"@
    &&& raw.frame_id == wire.frame_id
    &&& raw.status@ == (match wire.status {
        Some(s) => s@,
        None => "completed"@,
    })
    &&& raw.detail@ == (match wire.detail {
        Some(d) => d@,
        None => "Plugin load terminal event captured after profiler route became available"@,
    })
    &&& raw.scheduled
    &&& !raw.blocked && !raw.polling && !raw.waited_on_gpu && !raw.stayed_async
        && !raw.exceeded_frame_budget
    &&& raw.wait_reason == wire.wait_reason
    &&& raw.async_mode == wire.async_mode
    &&& raw.ended_unix_ms is Some
    &&& raw.payload_bytes is None
    &&& raw.output_bytes == wire.output_bytes
    &&& raw.error == wire.error
    &&& raw.metadata.entries@ == meta
}

/// A copy of an optional string.
fn copy_opt(s: &Option<String>) -> (r: Option<String>)
    ensures
        r == *s,
{
    match s {
        Some(t) => Some(t.clone()),
        None => None,
    }
}

/// The running job `run` as the end event leaves it, classified.
fn ended_record<M, C: Measure<M>>(clock: &C, run: JobRecord<M>, wire: JobEndWire, payload: Metadata) -> (r:
    JobRecord<M>)
    ensures
        exists|raw: JobRecord<M>| end_fields(run, raw, wire, payload) && #[trigger] classified(raw, r),
{
    let ghost w = wire;
    let ghost p0 = payload;
    let ghost r0 = run;
    let JobRecord {
        id,
        name,
        category,
        source,
        lane,
        priority,
        dependency_group,
        frame_id,
        status: _,
        detail,
        scheduled,
        blocked,
        polling,
        waited_on_gpu,
        stayed_async,
        exceeded_frame_budget,
        wait_reason,
        async_mode,
        started_unix_ms,
        ended_unix_ms: _,
        payload_bytes,
        output_bytes: _,
        error: _,
        metadata,
        facts: _,
        timing,
    } = run;
    proof {
        reveal_strlit("failed");
        reveal_strlit("completed");
    }
    let status = match wire.status {
        Some(s) => s,
        None => if wire.error.is_some() {
            "failed".to_owned()
        } else {
            "completed".to_owned()
        },
    };
    let detail = match wire.detail {
        Some(d) => d,
        None => detail,
    };
    let extra = match &wire.metadata {
        Some(m) => m.duplicate(),
        None => payload.duplicate(),
    };
    let merged_meta = merge_metadata(metadata, extra);
    let (new_timing, new_facts) = clock.ended(&timing, &payload, &merged_meta);
    let now = clock.now_unix_ms();
    let lane = match &wire.lane {
        Some(v) => sanitize_non_empty(Some(v.as_str()), lane.as_str()),
        None => lane,
    };
    let priority = match &wire.priority {
        Some(v) => sanitize_non_empty(Some(v.as_str()), priority.as_str()),
        None => priority,
    };
    let dependency_group = match &wire.dependency_group {
        Some(v) => sanitize_non_empty(Some(v.as_str()), dependency_group.as_str()),
        None => dependency_group,
    };
    let mut record = JobRecord {
        id,
        name,
        category,
        source,
        lane,
        priority,
        dependency_group,
        frame_id: match wire.frame_id {
            Some(f) => Some(f),
            None => frame_id,
        },
        status,
        detail,
        scheduled,
        blocked,
        polling,
        waited_on_gpu,
        stayed_async,
        exceeded_frame_budget,
        wait_reason: match wire.wait_reason {
            Some(x) => Some(x),
            None => wait_reason,
        },
        async_mode: match wire.async_mode {
            Some(x) => Some(x),
            None => async_mode,
        },
        started_unix_ms,
        ended_unix_ms: Some(now),
        payload_bytes,
        output_bytes: wire.output_bytes,
        error: wire.error,
        metadata: merged_meta,
        facts: new_facts,
        timing: new_timing,
    };
    let ghost raw = record;
    assert(end_fields(r0, raw, w, p0));
    refresh_record_classification(&mut record);
    record
}

impl ProfilerRuntime {
    /// Recovers the record of a plugin load whose end arrived without a
    /// begin, from the load's metadata: only for a `load_one` operation
    /// that records its elapsed time.
    pub fn synthesize_plugin_load_terminal_without_begin<M, C: Measure<M>>(
        &self,
        clock: &C,
        id: &str,
        wire: &JobEndWire,
        payload: Metadata,
    ) -> (r: Option<JobRecord<M>>)
        ensures
            ({
                let meta = end_metadata(*wire, payload);
                match r {
                    Some(rec) => late_recoverable(meta) && exists|raw: JobRecord<M>|
                        late_fields(raw, id@, *wire, meta) && #[trigger] classified(raw, rec),
                    None => !late_recoverable(meta),
                }
            }),
    {
        let ghost meta = end_metadata(*wire, payload);
        let metadata = match &wire.metadata {
            Some(m) => m.duplicate(),
            None => payload.duplicate(),
        };
        proof {
            reveal_strlit("load_one");
        }
        let operation = text_value_at(&metadata, "/operation");
        let is_load = match &operation {
            Some(o) => str_eq(o.as_str(), "load_one"),
            None => false,
        };
        if !is_load {
            return None;
        }
        let elapsed = match number_text_value_at(&metadata, "/total_ms") {
            Some(t) => t,
            None => match number_text_value_at(&metadata, "/elapsed_ms") {
                Some(t) => t,
                None => {
                    return None;
                },
            },
        };
        let path = match text_value_at(&metadata, "/path") {
            Some(p) => p,
            None => id.to_owned(),
        };
        let kind = default_budget_for("plugin_lifecycle");
        let stamp = clock.ended_late(kind, elapsed.as_str(), &payload, &metadata);
        let now = clock.now_unix_ms();
        let mut name = String::new();
        push_str(&mut name, "plugin_load:");
        push_str(&mut name, path.as_str());
        proof {
            reveal_strlit("plugin_load:");
            reveal_strlit("completed");
            reveal_strlit("Plugin load terminal event captured after profiler route became available");
        }
        let status = match &wire.status {
            Some(s) => s.clone(),
            None => "completed".to_owned(),
        };
        let detail = match &wire.detail {
            Some(d) => d.clone(),
            None => "Plugin load terminal event captured after profiler route became available".to_owned(),
        };
        let mut record = JobRecord {
            id: id.to_owned(),
            name,
            category: "plugin_lifecycle".to_owned(),
            source: "newengine-plugin-host".to_owned(),
            lane: "Plugin".to_owned(),
            priority: "Normal".to_owned(),
            dependency_group: "plugin-host".to_owned(),
            frame_id: wire.frame_id,
            status,
            detail,
            scheduled: true,
            blocked: false,
            polling: false,
            waited_on_gpu: false,
            stayed_async: false,
            exceeded_frame_budget: false,
            wait_reason: copy_opt(&wire.wait_reason),
            async_mode: copy_opt(&wire.async_mode),
            started_unix_ms: stamp.started_unix_ms,
            ended_unix_ms: Some(now),
            payload_bytes: None,
            output_bytes: wire.output_bytes,
            error: copy_opt(&wire.error),
            metadata,
            facts: stamp.facts,
            timing: stamp.timing,
        };
        let ghost raw = record;
        assert(late_fields(raw, id@, *wire, meta));
        refresh_record_classification(&mut record);
        Some(record)
    }
}

/// What an end event does to the state: a running job of its id ends and
/// is completed; a job completed lately under its id makes it a duplicate,
/// ignored; a recoverable plugin load is completed with its parts;
/// otherwise a warning says that no begin was seen.
pub open spec fn end_recorded<M>(
    max_jobs: nat,
    max_diags: nat,
    old: ProfilerState<M>,
    new: ProfilerState<M>,
    wire: JobEndWire,
    payload: Metadata,
) -> bool {
    let id = wire.id@;
    if has_active(old.active@, id) {
        let i = active_index(old.active@, id);
        &&& new.active@ == old.active@.remove(i)
        &&& exists|raw: JobRecord<M>, job: JobRecord<M>, s1: ProfilerState<M>|
            #![trigger classified(raw, job), completion_step(max_jobs, max_diags, s1, new, job)]
            {
                &&& end_fields(old.active@[i], raw, wire, payload)
                &&& classified(raw, job)
                &&& s1.completed == old.completed
                &&& s1.diagnostics == old.diagnostics
                &&& completion_step(max_jobs, max_diags, s1, new, job)
            }
    } else if recently_completed(old.completed@, id) {
        new == old
    } else if late_recoverable(end_metadata(wire, payload)) {
        exists|raw: JobRecord<M>, job: JobRecord<M>|
            #![trigger classified(raw, job)]
            {
                &&& late_fields(raw, id, wire, end_metadata(wire, payload))
                &&& classified(raw, job)
                &&& completed_with_parts(max_jobs, max_diags, old, new, job)
            }
    } else {
        &&& new.active == old.active
        &&& new.completed == old.completed
        &&& exists|t: u128|
            diag_pushed(
                old.diagnostics@,
                new.diagnostics@,
                "warn"@,
                "job_end_without_begin"@,
                "job '"@ + id + "' ended without a matching begin event"@,
                Some(id),
                t,
                max_diags,
            )
    }
}

proof fn lemma_unique_remove<M>(s: Seq<JobRecord<M>>, i: int)
    requires
        active_unique(s),
        0 <= i < s.len(),
    ensures
        active_unique(s.remove(i)),
{
    let r = s.remove(i);
    assert forall|a: int, b: int|
        0 <= a < r.len() && 0 <= b < r.len() && #[trigger] r[a].id@ == #[trigger] r[b].id@ implies a
        == b by {
        let sa = if a < i {
            a
        } else {
            a + 1
        };
        let sb = if b < i {
            b
        } else {
            b + 1
        };
        assert(r[a] == s[sa]);
        assert(r[b] == s[sb]);
    }
}

impl ProfilerRuntime {
    /// Records an end event: the running job of its id ends and is
    /// completed. Without one, a duplicate of a job completed lately is
    /// ignored, a plugin load whose metadata tells its elapsed time is
    /// recovered with its breakdown parts, and anything else is reported as
    /// an end without begin.
    pub fn record_end_locked<M, C: Measure<M>>(
        &self,
        state: &mut ProfilerState<M>,
        clock: &C,
        wire: JobEndWire,
        payload: Metadata,
    )
        requires
            active_unique(old(state).active@),
        ensures
            active_unique(final(state).active@),
            reports_kept(*old(state), *final(state)),
            final(state).next_local_id == old(state).next_local_id,
            end_recorded(
                self.cfg.diagnostics.max_recent_jobs as nat,
                self.cfg.diagnostics.max_recent_diagnostics as nat,
                *old(state),
                *final(state),
                wire,
                payload,
            ),
    {
        let ghost w = wire;
        let ghost p0 = payload;
        let ghost s0 = *state;
        let maxj = Ghost(self.cfg.diagnostics.max_recent_jobs as nat);
        let maxd = Ghost(self.cfg.diagnostics.max_recent_diagnostics as nat);
        match find_active(state, wire.id.as_str()) {
            Some(i) => {
                let run = state.active.remove(i);
                proof {
                    lemma_unique_remove(s0.active@, i as int);
                }
                let ghost s1 = *state;
                let record = ended_record(clock, run, wire, payload);
                let ghost job = record;
                self.complete_measured(state, clock, record);
                proof {
                    reveal(completion_step);
                    let raw = choose|raw: JobRecord<M>|
                        end_fields(s0.active@[i as int], raw, w, p0) && #[trigger] classified(
                            raw,
                            job,
                        );
                    assert(completion_step(maxj@, maxd@, s1, *state, job));
                    assert(classified(raw, job));
                }
            },
            None => {
                if recently_completed_duplicate_terminal(state, wire.id.as_str()) {
                    return ;
                }
                let id = wire.id.clone();
                match self.synthesize_plugin_load_terminal_without_begin(
                    clock,
                    id.as_str(),
                    &wire,
                    payload,
                ) {
                    Some(record) => {
                        self.complete_with_parts(state, clock, record);
                        proof {
                            let parts = choose|parts: Seq<JobRecord<M>>|
                                parts_of(record, parts) && #[trigger] completions(
                                    maxj@,
                                    maxd@,
                                    s0,
                                    *state,
                                    seq![record] + parts,
                                );
                            lemma_completions_keep(maxj@, maxd@, s0, *state, seq![record] + parts);
                        }
                    },
                    None => {
                        let mut msg = String::new();
                        push_str(&mut msg, "job '");
                        push_str(&mut msg, id.as_str());
                        push_str(&mut msg, "' ended without a matching begin event");
                        proof {
                            reveal_strlit("job '");
                            reveal_strlit("' ended without a matching begin event");
                        }
                        assert(msg@ =~= "job '"@ + id@ + "' ended without a matching begin event"@);
                        let now = clock.now_unix_ms();
                        Self::push_diag_locked(
                            &self.cfg,
                            state,
                            "warn",
                            "job_end_without_begin",
                            msg,
                            Some(id),
                            now,
                        );
                    },
                }
            },
        }
    }
}

/// The phase of a status event, ASCII-lowercased; `running` where it has
/// none.
pub open spec fn status_phase(wire: JobStatusWire) -> Seq<char> {
    lower_seq(
        match wire.phase {
            Some(p) => p@,
            None => "running"@,
        },
    )
}

/// A phase that ends a task.
pub open spec fn is_terminal_phase(p: Seq<char>) -> bool {
    p == "completed"@ || p == "failed"@ || p == "cancelled"@
}

/// The metadata a status event brings: its `metadata`, else the event.
pub open spec fn status_metadata(wire: JobStatusWire, payload: Metadata) -> Seq<MetaEntry> {
    match wire.metadata {
        Some(m) => m.entries@,
        None => payload.entries@,
    }
}

/// The end event that a terminal status event stands for.
pub open spec fn status_end_wire(ew: JobEndWire, wire: JobStatusWire, payload: Metadata) -> bool {
    &&& ew.id == wire.id
    &&& opt_view(ew.status) == Some(status_phase(wire))
    &&& opt_view(ew.detail) == Some(text_or_empty(wire.detail))
    &&& ew.error is None
    &&& ew.output_bytes is None
    &&& (match ew.metadata {
        Some(m) => m.entries@ == status_metadata(wire, payload),
        None => false,
    })
    &&& ew.lane == wire.lane
    &&& ew.priority == wire.priority
    &&& ew.dependency_group == wire.dependency_group
    &&& ew.frame_id == wire.frame_id
    &&& ew.wait_reason == wire.wait_reason
    &&& ew.async_mode == wire.async_mode
}

/// The begin event that a status event for an unknown task stands for.
pub open spec fn status_begin_wire(bw: JobBeginWire, wire: JobStatusWire, payload: Metadata) -> bool {
    &&& opt_view(bw.id) == Some(wire.id@)
    &&& bw.name == wire.label
    &&& bw.label is None
    &&& opt_view(bw.category) == Some(
        match wire.kind {
            Some(k) => k@,
            None => "task_status"@,
        },
    )
    &&& opt_view(bw.source) == Some("task_status"@)
    &&& bw.detail == wire.detail
    &&& bw.payload_bytes is None
    &&& (match bw.metadata {
        Some(m) => m.entries@ == status_metadata(wire, payload),
        None => false,
    })
    &&& bw.lane == wire.lane
    &&& bw.priority == wire.priority
    &&& bw.dependency_group == wire.dependency_group
    &&& bw.frame_id == wire.frame_id
    &&& bw.wait_reason == wire.wait_reason
    &&& bw.async_mode == wire.async_mode
}

/// The running job `run` after a status event, before classification,
/// apart from its timing and facts.
pub open spec fn progress_fields<M>(
    run: JobRecord<M>,
    raw: JobRecord<M>,
    wire: JobStatusWire,
    phase: Seq<char>,
) -> bool {
    &&& raw.id == run.id
    &&& raw.category == run.category
    &&& raw.source == run.source
    &&& raw.status@ == phase
    &&& raw.name@ == (match wire.label {
        Some(l) => l@,
        None => run.name@,
    })
    &&& raw.detail@ == (match wire.detail {
        Some(d) => d@,
        None => run.detail@,
    })
    &&& raw.lane@ == relabel(wire.lane, run.lane@)
    &&& raw.priority@ == relabel(wire.priority, run.priority@)
    &&& raw.dependency_group@ == relabel(wire.dependency_group, run.dependency_group@)
    &&& raw.frame_id == (match wire.frame_id {
        Some(f) => Some(f),
        None => run.frame_id,
    })
    &&& raw.wait_reason == (match wire.wait_reason {
        Some(w) => Some(w),
        None => run.wait_reason,
    })
    &&& raw.async_mode == (match wire.async_mode {
        Some(a) => Some(a),
        None => run.async_mode,
    })
    &&& raw.metadata.entries@ == (match wire.metadata {
        Some(extra) => merged(run.metadata.entries@, extra.entries@),
        None => run.metadata.entries@,
    })
    &&& raw.started_unix_ms == run.started_unix_ms
    &&& raw.ended_unix_ms == run.ended_unix_ms
    &&& raw.payload_bytes == run.payload_bytes
    &&& raw.output_bytes == run.output_bytes
    &&& raw.error == run.error
    &&& raw.scheduled == run.scheduled
    &&& raw.blocked == run.blocked
    &&& raw.polling == run.polling
    &&& raw.waited_on_gpu == run.waited_on_gpu
    &&& raw.stayed_async == run.stayed_async
    &&& raw.exceeded_frame_budget == run.exceeded_frame_budget
}

/// What a status event does to the state: a terminal phase ends the task
/// as an end event would; otherwise the running task is updated, or, where
/// none runs, the task begins as a begin event would make it.
pub open spec fn status_recorded<M>(
    max_jobs: nat,
    max_diags: nat,
    old: ProfilerState<M>,
    new: ProfilerState<M>,
    wire: JobStatusWire,
    payload: Metadata,
) -> bool {
    let phase = status_phase(wire);
    if is_terminal_phase(phase) {
        exists|ew: JobEndWire|
            status_end_wire(ew, wire, payload) && #[trigger] end_recorded(
                max_jobs,
                max_diags,
                old,
                new,
                ew,
                payload,
            )
    } else if has_active(old.active@, wire.id@) {
        let i = active_index(old.active@, wire.id@);
        &&& exists|raw: JobRecord<M>, job: JobRecord<M>|
            #![trigger classified(raw, job)]
            {
                &&& progress_fields(old.active@[i], raw, wire, phase)
                &&& classified(raw, job)
                &&& new.active@ == old.active@.update(i, job)
            }
        &&& new.completed == old.completed
        &&& new.diagnostics == old.diagnostics
        &&& reports_kept(old, new)
        &&& new.next_local_id == old.next_local_id
    } else {
        exists|bw: JobBeginWire|
            status_begin_wire(bw, wire, payload) && #[trigger] begin_recorded(
                max_diags,
                old,
                new,
                bw,
                payload,
            )
    }
}

/// The running job `run` after a status event, classified.
fn progressed_record<M, C: Measure<M>>(
    clock: &C,
    run: JobRecord<M>,
    wire: JobStatusWire,
    payload: &Metadata,
    phase: String,
) -> (r: JobRecord<M>)
    ensures
        exists|raw: JobRecord<M>| progress_fields(run, raw, wire, phase@) && #[trigger] classified(raw, r),
{
    let ghost w = wire;
    let ghost r0 = run;
    let JobRecord {
        id,
        name,
        category,
        source,
        lane,
        priority,
        dependency_group,
        frame_id,
        status: _,
        detail,
        scheduled,
        blocked,
        polling,
        waited_on_gpu,
        stayed_async,
        exceeded_frame_budget,
        wait_reason,
        async_mode,
        started_unix_ms,
        ended_unix_ms,
        payload_bytes,
        output_bytes,
        error,
        metadata,
        facts: _,
        timing,
    } = run;
    let merged_meta = match wire.metadata {
        Some(extra) => merge_metadata(metadata, extra),
        None => metadata,
    };
    let kind = default_budget_for("task_status");
    let (new_timing, new_facts) = clock.progressed(&timing, kind, payload, &merged_meta);
    let lane = match &wire.lane {
        Some(v) => sanitize_non_empty(Some(v.as_str()), lane.as_str()),
        None => lane,
    };
    let priority = match &wire.priority {
        Some(v) => sanitize_non_empty(Some(v.as_str()), priority.as_str()),
        None => priority,
    };
    let dependency_group = match &wire.dependency_group {
        Some(v) => sanitize_non_empty(Some(v.as_str()), dependency_group.as_str()),
        None => dependency_group,
    };
    let mut record = JobRecord {
        id,
        name: match wire.label {
            Some(l) => l,
            None => name,
        },
        category,
        source,
        lane,
        priority,
        dependency_group,
        frame_id: match wire.frame_id {
            Some(f) => Some(f),
            None => frame_id,
        },
        status: phase,
        detail: match wire.detail {
            Some(d) => d,
            None => detail,
        },
        scheduled,
        blocked,
        polling,
        waited_on_gpu,
        stayed_async,
        exceeded_frame_budget,
        wait_reason: match wire.wait_reason {
            Some(x) => Some(x),
            None => wait_reason,
        },
        async_mode: match wire.async_mode {
            Some(x) => Some(x),
            None => async_mode,
        },
        started_unix_ms,
        ended_unix_ms,
        payload_bytes,
        output_bytes,
        error,
        metadata: merged_meta,
        facts: new_facts,
        timing: new_timing,
    };
    let ghost raw = record;
    assert(progress_fields(r0, raw, w, raw.status@));
    refresh_record_classification(&mut record);
    record
}

impl ProfilerRuntime {
    /// Records a task status event: `completed`, `failed` and `cancelled`
    /// end the task; another phase updates the running task, or begins it
    /// where it is not running.
    pub fn record_status_locked<M, C: Measure<M>>(
        &self,
        state: &mut ProfilerState<M>,
        clock: &C,
        wire: JobStatusWire,
        payload: Metadata,
    )
        requires
            active_unique(old(state).active@),
        ensures
            active_unique(final(state).active@),
            status_recorded(
                self.cfg.diagnostics.max_recent_jobs as nat,
                self.cfg.diagnostics.max_recent_diagnostics as nat,
                *old(state),
                *final(state),
                wire,
                payload,
            ),
    {
        let ghost w = wire;
        let ghost p0 = payload;
        let ghost s0 = *state;
        proof {
            reveal_strlit("running");
            reveal_strlit("completed");
            reveal_strlit("failed");
            reveal_strlit("cancelled");
            reveal_strlit("task_status");
        }
        let phase_src = match &wire.phase {
            Some(p) => chars_of(p.as_str()),
            None => chars_of("running"),
        };
        let phase_c = lower_chars(phase_src.as_slice());
        let phase = string_of(phase_c.as_slice());
        assert(phase@ == status_phase(w));
        let terminal = str_eq(phase.as_str(), "completed") || str_eq(phase.as_str(), "failed")
            || str_eq(phase.as_str(), "cancelled");
        if terminal {
            let metadata = match wire.metadata {
                Some(m) => m,
                None => payload.duplicate(),
            };
            let ew = JobEndWire {
                id: wire.id,
                status: Some(phase),
                detail: Some(
                    match wire.detail {
                        Some(d) => d,
                        None => String::new(),
                    },
                ),
                error: None,
                output_bytes: None,
                metadata: Some(metadata),
                lane: wire.lane,
                priority: wire.priority,
                dependency_group: wire.dependency_group,
                frame_id: wire.frame_id,
                wait_reason: wire.wait_reason,
                async_mode: wire.async_mode,
            };
            let ghost ew0 = ew;
            assert(status_end_wire(ew0, w, p0));
            self.record_end_locked(state, clock, ew, payload);
            assert(end_recorded(
                self.cfg.diagnostics.max_recent_jobs as nat,
                self.cfg.diagnostics.max_recent_diagnostics as nat,
                s0,
                *state,
                ew0,
                p0,
            ));
            return ;
        }
        match find_active(state, wire.id.as_str()) {
            Some(i) => {
                let run = state.active.remove(i);
                let rec = progressed_record(clock, run, wire, &payload, phase);
                let ghost job = rec;
                state.active.insert(i, rec);
                assert(state.active@ =~= s0.active@.update(i as int, job));
                proof {
                    assert forall|a: int, b: int|
                        0 <= a < state.active@.len() && 0 <= b < state.active@.len()
                            && #[trigger] state.active@[a].id@ == #[trigger] state.active@[b].id@
                            implies a == b by {
                        assert(s0.active@[i as int].id == job.id);
                        if a != i && b != i {
                            assert(s0.active@[a].id@ == s0.active@[b].id@);
                        } else if a == i && b != i {
                            assert(s0.active@[b].id@ == s0.active@[i as int].id@);
                        } else if b == i && a != i {
                            assert(s0.active@[a].id@ == s0.active@[i as int].id@);
                        }
                    }
                }
            },
            None => {
                let metadata = match wire.metadata {
                    Some(m) => m,
                    None => payload.duplicate(),
                };
                let bw = JobBeginWire {
                    id: Some(wire.id),
                    name: wire.label,
                    label: None,
                    category: Some(
                        match wire.kind {
                            Some(k) => k,
                            None => "task_status".to_owned(),
                        },
                    ),
                    source: Some("task_status".to_owned()),
                    detail: wire.detail,
                    payload_bytes: None,
                    metadata: Some(metadata),
                    lane: wire.lane,
                    priority: wire.priority,
                    dependency_group: wire.dependency_group,
                    frame_id: wire.frame_id,
                    wait_reason: wire.wait_reason,
                    async_mode: wire.async_mode,
                };
                let ghost bw0 = bw;
                assert(status_begin_wire(bw0, w, p0));
                self.record_begin_locked(state, clock, bw, payload);
                assert(begin_recorded(
                    self.cfg.diagnostics.max_recent_diagnostics as nat,
                    s0,
                    *state,
                    bw0,
                    p0,
                ));
            },
        }
    }
}

/// The id of an engine task event: `task_id`, else `id` (whichever is
/// present), where it is a string.
pub open spec fn engine_task_id(es: Seq<MetaEntry>) -> Option<Seq<char>> {
    text_of_present(es, "/task_id"@, "/id"@)
}

/// The phase of an engine task event, ASCII-lowercased; `running` where
/// it has none.
pub open spec fn engine_phase(es: Seq<MetaEntry>) -> Seq<char> {
    lower_seq(
        match text_at(es, "/phase"@) {
            Some(p) => p,
            None => "Running"@,
        },
    )
}

/// A phase that ends an engine task.
pub open spec fn engine_terminal(p: Seq<char>) -> bool {
    p == "completed"@ || p == "failed"@ || p == "cancelled"@ || p == "canceled"@
}

/// The status an ended engine task gets: both spellings of cancelled read
/// `cancelled`.
pub open spec fn engine_status(p: Seq<char>) -> Seq<char> {
    if p == "cancelled"@ || p == "canceled"@ {
        "cancelled"@
    } else {
        p
    }
}

/// The detail of an engine task event: its `detail`, else its `status`
/// (whichever is present), where it is a string; empty otherwise.
pub open spec fn engine_detail(es: Seq<MetaEntry>) -> Seq<char> {
    match text_of_present(es, "/detail"@, "/status"@) {
        Some(d) => d,
        None => Seq::empty(),
    }
}

/// An optional string field as a begin event reads it: missing or `null`
/// is none, a string is itself, anything else is refused (`None`).
pub open spec fn opt_str_field(v: Option<MetaValue>) -> Option<Option<Seq<char>>> {
    match v {
        None => Some(None),
        Some(MetaValue::Null) => Some(None),
        Some(MetaValue::Str(s)) => Some(Some(s@)),
        _ => None,
    }
}

/// An optional unsigned field as a begin event reads it.
pub open spec fn opt_u64_field(v: Option<MetaValue>) -> Option<Option<u64>> {
    match v {
        None => Some(None),
        Some(MetaValue::Null) => Some(None),
        Some(MetaValue::Number(t)) => match digits_u64(t@) {
            Some(n) => Some(Some(n)),
            None => None,
        },
        _ => None,
    }
}

/// An optional number field as a begin event reads it: missing, `null` or
/// a number.
pub open spec fn number_field_ok(v: Option<MetaValue>) -> bool {
    match v {
        None => true,
        Some(MetaValue::Null) => true,
        Some(MetaValue::Number(_)) => true,
        _ => false,
    }
}

/// The value of the first of two fields that is present.
pub open spec fn first_present_value(es: Seq<MetaEntry>, p: Seq<char>, q: Seq<char>) -> Option<MetaValue> {
    match meta_get(es, p) {
        Some(v) => Some(v),
        None => meta_get(es, q),
    }
}

/// The fields that an engine task passes on to the begin event it makes
/// have the types a begin event takes.
pub open spec fn engine_fields_typed(es: Seq<MetaEntry>) -> bool {
    &&& opt_str_field(meta_get(es, "/lane"@)) is Some
    &&& opt_str_field(meta_get(es, "/priority"@)) is Some
    &&& opt_str_field(meta_get(es, "/dependency_group"@)) is Some
    &&& opt_u64_field(meta_get(es, "/frame_id"@)) is Some
    &&& number_field_ok(meta_get(es, "/frame_budget_ms"@))
    &&& number_field_ok(meta_get(es, "/gpu_wait_ms"@))
    &&& opt_str_field(first_present_value(es, "/wait_reason"@, "/blocked_reason"@)) is Some
    &&& opt_str_field(meta_get(es, "/async_mode"@)) is Some
}

/// The end event that a terminal engine task event stands for.
pub open spec fn engine_end_wire(ew: JobEndWire, id: Seq<char>, value: Metadata) -> bool {
    let es = value.entries@;
    &&& ew.id@ == id
    &&& opt_view(ew.status) == Some(engine_status(engine_phase(es)))
    &&& opt_view(ew.detail) == Some(engine_detail(es))
    &&& ew.error is None
    &&& ew.output_bytes is None
    &&& (match ew.metadata {
        Some(m) => m.entries@ == es,
        None => false,
    })
    &&& ew.lane is None
    &&& ew.priority is None
    &&& ew.dependency_group is None
    &&& ew.frame_id is None
    &&& ew.wait_reason is None
    &&& ew.async_mode is None
}

/// The begin event that an engine task event for an unknown task stands
/// for.
pub open spec fn engine_begin_wire(bw: JobBeginWire, id: Seq<char>, value: Metadata) -> bool {
    let es = value.entries@;
    &&& opt_view(bw.id) == Some(id)
    &&& opt_view(bw.name) == Some(sanitize_spec(text_at(es, "/name"@), id))
    &&& bw.label is None
    &&& opt_view(bw.category) == Some(sanitize_spec(text_at(es, "/category"@), "engine_task"@))
    &&& opt_view(bw.source) == Some(sanitize_spec(text_at(es, "/source"@), "engine.task.event"@))
    &&& opt_view(bw.detail) == Some(engine_detail(es))
    &&& bw.payload_bytes is None
    &&& (match bw.metadata {
        Some(m) => m.entries@ == es,
        None => false,
    })
    &&& opt_str_field(meta_get(es, "/lane"@)) == Some(opt_view(bw.lane))
    &&& opt_str_field(meta_get(es, "/priority"@)) == Some(opt_view(bw.priority))
    &&& opt_str_field(meta_get(es, "/dependency_group"@)) == Some(opt_view(bw.dependency_group))
    &&& opt_u64_field(meta_get(es, "/frame_id"@)) == Some(bw.frame_id)
    &&& opt_str_field(first_present_value(es, "/wait_reason"@, "/blocked_reason"@)) == Some(
        opt_view(bw.wait_reason),
    )
    &&& opt_str_field(meta_get(es, "/async_mode"@)) == Some(opt_view(bw.async_mode))
}

/// The running job `run` after an engine task event, before
/// classification, apart from its timing and facts.
pub open spec fn engine_progress_fields<M>(run: JobRecord<M>, raw: JobRecord<M>, id: Seq<char>, value: Metadata) -> bool {
    let es = value.entries@;
    &&& raw.status@ == engine_phase(es)
    &&& raw.name@ == sanitize_spec(text_at(es, "/name"@), id)
    &&& raw.detail@ == engine_detail(es)
    &&& raw.metadata.entries@ == merged(run.metadata.entries@, es)
    &&& raw.id == run.id
    &&& raw.category == run.category
    &&& raw.source == run.source
    &&& raw.lane == run.lane
    &&& raw.priority == run.priority
    &&& raw.dependency_group == run.dependency_group
    &&& raw.frame_id == run.frame_id
    &&& raw.wait_reason == run.wait_reason
    &&& raw.async_mode == run.async_mode
    &&& raw.started_unix_ms == run.started_unix_ms
    &&& raw.ended_unix_ms == run.ended_unix_ms
    &&& raw.payload_bytes == run.payload_bytes
    &&& raw.output_bytes == run.output_bytes
    &&& raw.error == run.error
    &&& raw.scheduled == run.scheduled
    &&& raw.blocked == run.blocked
    &&& raw.polling == run.polling
    &&& raw.waited_on_gpu == run.waited_on_gpu
    &&& raw.stayed_async == run.stayed_async
    &&& raw.exceeded_frame_budget == run.exceeded_frame_budget
}

/// An engine task event is refused: it has no id, or it would begin a task
/// with a field of the wrong type.
pub open spec fn engine_refused<M>(old: ProfilerState<M>, value: Metadata) -> bool {
    let es = value.entries@;
    match engine_task_id(es) {
        None => true,
        Some(id) => !engine_terminal(engine_phase(es)) && !has_active(old.active@, id)
            && !engine_fields_typed(es),
    }
}

/// What an accepted engine task event does to the state: a terminal phase
/// ends the task as an end event would; otherwise the running task is
/// updated, or, where none runs, the task begins as a begin event would
/// make it.
pub open spec fn engine_recorded<M>(
    max_jobs: nat,
    max_diags: nat,
    old: ProfilerState<M>,
    new: ProfilerState<M>,
    value: Metadata,
) -> bool {
    let es = value.entries@;
    let id = engine_task_id(es)->0;
    if engine_terminal(engine_phase(es)) {
        exists|ew: JobEndWire|
            engine_end_wire(ew, id, value) && #[trigger] end_recorded(
                max_jobs,
                max_diags,
                old,
                new,
                ew,
                value,
            )
    } else if has_active(old.active@, id) {
        let i = active_index(old.active@, id);
        &&& exists|raw: JobRecord<M>, job: JobRecord<M>|
            #![trigger classified(raw, job)]
            {
                &&& engine_progress_fields(old.active@[i], raw, id, value)
                &&& classified(raw, job)
                &&& new.active@ == old.active@.update(i, job)
            }
        &&& new.completed == old.completed
        &&& new.diagnostics == old.diagnostics
        &&& reports_kept(old, new)
        &&& new.next_local_id == old.next_local_id
    } else {
        exists|bw: JobBeginWire|
            engine_begin_wire(bw, id, value) && #[trigger] begin_recorded(
                max_diags,
                old,
                new,
                bw,
                value,
            )
    }
}

/// An optional string field; `Err` where the value has another type.
pub(crate) fn str_field(v: Option<MetaValue>) -> (r: Result<Option<String>, ()>)
    ensures
        match r {
            Ok(o) => opt_str_field(v) == Some(opt_view(o)),
            Err(_) => opt_str_field(v) is None,
        },
{
    match v {
        None => Ok(None),
        Some(MetaValue::Null) => Ok(None),
        Some(MetaValue::Str(s)) => Ok(Some(s)),
        _ => Err(()),
    }
}

/// An optional unsigned field; `Err` where the value is no such number.
pub(crate) fn u64_field(v: Option<MetaValue>) -> (r: Result<Option<u64>, ()>)
    ensures
        match r {
            Ok(o) => opt_u64_field(v) == Some(o),
            Err(_) => opt_u64_field(v) is None,
        },
{
    match v {
        None => Ok(None),
        Some(MetaValue::Null) => Ok(None),
        Some(MetaValue::Number(t)) => {
            let c = chars_of(t.as_str());
            match parse_digits_u64(c.as_slice()) {
                Some(n) => Ok(Some(n)),
                None => Err(()),
            }
        },
        _ => Err(()),
    }
}

/// Whether an optional number field has a number type.
pub(crate) fn number_field(v: &Option<MetaValue>) -> (r: bool)
    ensures
        r == number_field_ok(*v),
{
    match v {
        None => true,
        Some(MetaValue::Null) => true,
        Some(MetaValue::Number(_)) => true,
        _ => false,
    }
}

/// The running job `run` after an engine task event, classified.
fn engine_progressed<M, C: Measure<M>>(
    clock: &C,
    run: JobRecord<M>,
    kind: BudgetKind,
    phase: String,
    label: String,
    detail: String,
    value: Metadata,
) -> (r: JobRecord<M>)
    ensures
        exists|raw: JobRecord<M>|
            {
                &&& raw.status@ == phase@
                &&& raw.name@ == label@
                &&& raw.detail@ == detail@
                &&& raw.metadata.entries@ == merged(run.metadata.entries@, value.entries@)
                &&& raw.id == run.id && raw.category == run.category && raw.source == run.source
                &&& raw.lane == run.lane && raw.priority == run.priority && raw.dependency_group
                    == run.dependency_group && raw.frame_id == run.frame_id
                &&& raw.wait_reason == run.wait_reason && raw.async_mode == run.async_mode
                &&& raw.started_unix_ms == run.started_unix_ms && raw.ended_unix_ms
                    == run.ended_unix_ms
                &&& raw.payload_bytes == run.payload_bytes && raw.output_bytes == run.output_bytes
                    && raw.error == run.error
                &&& raw.scheduled == run.scheduled && raw.blocked == run.blocked && raw.polling
                    == run.polling && raw.waited_on_gpu == run.waited_on_gpu
                &&& raw.stayed_async == run.stayed_async && raw.exceeded_frame_budget
                    == run.exceeded_frame_budget
                &&& #[trigger] classified(raw, r)
            },
{
    let JobRecord {
        id,
        name: _,
        category,
        source,
        lane,
        priority,
        dependency_group,
        frame_id,
        status: _,
        detail: _,
        scheduled,
        blocked,
        polling,
        waited_on_gpu,
        stayed_async,
        exceeded_frame_budget,
        wait_reason,
        async_mode,
        started_unix_ms,
        ended_unix_ms,
        payload_bytes,
        output_bytes,
        error,
        metadata,
        facts: _,
        timing,
    } = run;
    let merged_meta = merge_metadata(metadata, value.duplicate());
    let (new_timing, new_facts) = clock.progressed(&timing, kind, &value, &merged_meta);
    let mut record = JobRecord {
        id,
        name: label,
        category,
        source,
        lane,
        priority,
        dependency_group,
        frame_id,
        status: phase,
        detail,
        scheduled,
        blocked,
        polling,
        waited_on_gpu,
        stayed_async,
        exceeded_frame_budget,
        wait_reason,
        async_mode,
        started_unix_ms,
        ended_unix_ms,
        payload_bytes,
        output_bytes,
        error,
        metadata: merged_meta,
        facts: new_facts,
        timing: new_timing,
    };
    let ghost raw = record;
    refresh_record_classification(&mut record);
    assert(classified(raw, record));
    record
}

impl ProfilerRuntime {
    /// Records an engine task event: a terminal phase (`completed`,
    /// `failed`, `cancelled` or `canceled`) ends the task; another phase
    /// updates the running task, or begins it where it is not running. An
    /// event without a task id is refused, and so is one that would begin a
    /// task with a field of the wrong type.
    pub fn record_engine_task_event_locked<M, C: Measure<M>>(
        &self,
        state: &mut ProfilerState<M>,
        clock: &C,
        value: Metadata,
    ) -> (r: Result<(), String>)
        requires
            active_unique(old(state).active@),
        ensures
            active_unique(final(state).active@),
            match r {
                Ok(_) => !engine_refused(*old(state), value) && engine_recorded(
                    self.cfg.diagnostics.max_recent_jobs as nat,
                    self.cfg.diagnostics.max_recent_diagnostics as nat,
                    *old(state),
                    *final(state),
                    value,
                ),
                Err(e) => engine_refused(*old(state), value) && *final(state) == *old(state) && (
                engine_task_id(value.entries@) is None ==> e@ == "engine task event has no task_id"@),
            },
    {
        let ghost v0 = value;
        let ghost es = value.entries@;
        let ghost s0 = *state;
        proof {
            reveal_strlit("Running");
            reveal_strlit("completed");
            reveal_strlit("failed");
            reveal_strlit("cancelled");
            reveal_strlit("canceled");
            reveal_strlit("engine task event has no task_id");
        }
        let id = match text_of_first_present(&value, "/task_id", "/id") {
            Some(i) => i,
            None => {
                return Err("engine task event has no task_id".to_owned());
            },
        };
        let phase_src = match text_value_at(&value, "/phase") {
            Some(p) => chars_of(p.as_str()),
            None => chars_of("Running"),
        };
        let phase_c = lower_chars(phase_src.as_slice());
        let phase = string_of(phase_c.as_slice());
        assert(phase@ == engine_phase(es));
        let category = sanitize_opt(&text_value_at(&value, "/category"), "engine_task");
        let source = sanitize_opt(&text_value_at(&value, "/source"), "engine.task.event");
        let label = sanitize_opt(&text_value_at(&value, "/name"), id.as_str());
        let detail = match text_of_first_present(&value, "/detail", "/status") {
            Some(d) => d,
            None => String::new(),
        };
        let kind = default_budget_for(category.as_str());
        let cancelled = str_eq(phase.as_str(), "cancelled") || str_eq(phase.as_str(), "canceled");
        let terminal = str_eq(phase.as_str(), "completed") || str_eq(phase.as_str(), "failed")
            || cancelled;
        if terminal {
            let status = if cancelled {
                "cancelled".to_owned()
            } else {
                phase
            };
            let payload = value.duplicate();
            let ew = JobEndWire {
                id,
                status: Some(status),
                detail: Some(detail),
                error: None,
                output_bytes: None,
                metadata: Some(value),
                lane: None,
                priority: None,
                dependency_group: None,
                frame_id: None,
                wait_reason: None,
                async_mode: None,
            };
            let ghost ew0 = ew;
            assert(engine_end_wire(ew0, engine_task_id(es)->0, v0));
            self.record_end_locked(state, clock, ew, payload);
            assert(end_recorded(
                self.cfg.diagnostics.max_recent_jobs as nat,
                self.cfg.diagnostics.max_recent_diagnostics as nat,
                s0,
                *state,
                ew0,
                v0,
            ));
            return Ok(());
        }
        match find_active(state, id.as_str()) {
            Some(i) => {
                let run = state.active.remove(i);
                let rec = engine_progressed(clock, run, kind, phase, label, detail, value);
                let ghost job = rec;
                state.active.insert(i, rec);
                assert(state.active@ =~= s0.active@.update(i as int, job));
                proof {
                    assert forall|a: int, b: int|
                        0 <= a < state.active@.len() && 0 <= b < state.active@.len()
                            && #[trigger] state.active@[a].id@ == #[trigger] state.active@[b].id@
                            implies a == b by {
                        assert(s0.active@[i as int].id == job.id);
                        if a != i && b != i {
                            assert(s0.active@[a].id@ == s0.active@[b].id@);
                        } else if a == i && b != i {
                            assert(s0.active@[b].id@ == s0.active@[i as int].id@);
                        } else if b == i && a != i {
                            assert(s0.active@[a].id@ == s0.active@[i as int].id@);
                        }
                    }
                }
                Ok(())
            },
            None => {
                let lane = str_field(value.get("/lane"));
                let priority = str_field(value.get("/priority"));
                let dependency_group = str_field(value.get("/dependency_group"));
                let frame_id = u64_field(value.get("/frame_id"));
                let frame_budget_ok = number_field(&value.get("/frame_budget_ms"));
                let gpu_wait_ok = number_field(&value.get("/gpu_wait_ms"));
                let reason_value = match value.get("/wait_reason") {
                    Some(v) => Some(v),
                    None => value.get("/blocked_reason"),
                };
                let wait_reason = str_field(reason_value);
                let async_mode = str_field(value.get("/async_mode"));
                match (lane, priority, dependency_group, frame_id, wait_reason, async_mode) {
                    (Ok(lane), Ok(priority), Ok(dependency_group), Ok(frame_id), Ok(wait_reason), Ok(async_mode)) => {
                        if !frame_budget_ok || !gpu_wait_ok {
                            return Err("engine task event has a field of the wrong type".to_owned());
                        }
                        let payload = value.duplicate();
                        let bw = JobBeginWire {
                            id: Some(id),
                            name: Some(label),
                            label: None,
                            category: Some(category),
                            source: Some(source),
                            detail: Some(detail),
                            payload_bytes: None,
                            metadata: Some(value),
                            lane,
                            priority,
                            dependency_group,
                            frame_id,
                            wait_reason,
                            async_mode,
                        };
                        let ghost bw0 = bw;
                        assert(engine_begin_wire(bw0, engine_task_id(es)->0, v0));
                        self.record_begin_locked(state, clock, bw, payload);
                        assert(begin_recorded(
                            self.cfg.diagnostics.max_recent_diagnostics as nat,
                            s0,
                            *state,
                            bw0,
                            v0,
                        ));
                        Ok(())
                    },
                    _ => Err("engine task event has a field of the wrong type".to_owned()),
                }
            },
        }
    }
}

/// After an end event for a running job, the job no longer runs; where the
/// completed history had room, the ended job is its newest record.
pub proof fn lemma_end_retires_running<M>(
    max_jobs: nat,
    max_diags: nat,
    old: ProfilerState<M>,
    new: ProfilerState<M>,
    wire: JobEndWire,
    payload: Metadata,
)
    requires
        active_unique(old.active@),
        has_active(old.active@, wire.id@),
        end_recorded(max_jobs, max_diags, old, new, wire, payload),
    ensures
        !has_active(new.active@, wire.id@),
        old.completed@.len() < max_jobs ==> {
            &&& new.completed@.len() == old.completed@.len() + 1
            &&& new.completed@.last().id@ == wire.id@
            &&& new.completed@.last().name == old.active@[active_index(old.active@, wire.id@)].name
            &&& new.completed@.last().category == old.active@[active_index(
                old.active@,
                wire.id@,
            )].category
        },
{
    let id = wire.id@;
    let i = active_index(old.active@, id);
    assert(0 <= i < old.active@.len() && old.active@[i].id@ == id);
    let r = old.active@.remove(i);
    assert forall|a: int| 0 <= a < r.len() implies #[trigger] r[a].id@ != id by {
        let sa = if a < i {
            a
        } else {
            a + 1
        };
        assert(r[a] == old.active@[sa]);
        assert(sa != i);
    }
    let (raw, job, s1) = choose|raw: JobRecord<M>, job: JobRecord<M>, s1: ProfilerState<M>|
        {
            &&& end_fields(old.active@[i], raw, wire, payload)
            &&& #[trigger] classified(raw, job)
            &&& s1.completed == old.completed
            &&& s1.diagnostics == old.diagnostics
            &&& #[trigger] completion_step(max_jobs, max_diags, s1, new, job)
        };
    reveal(completion_step);
    let job2 = choose|job2: JobRecord<M>, detail: Seq<char>, t: u128|
        {
            &&& classified(job, job2)
            &&& new.completed@ == evict_to(s1.completed@.push(job2), max_jobs)
            &&& #[trigger] completion_diags_ok(
                s1.diagnostics@,
                new.diagnostics@,
                job2,
                detail,
                t,
                max_diags,
            )
        };
    if old.completed@.len() < max_jobs {
        assert(evict_to(s1.completed@.push(job2.0), max_jobs) == s1.completed@.push(job2.0));
    }
}

/// A second end event for a job that just ended, while the completed
/// history had room for it, changes nothing.
pub proof fn lemma_repeated_end_ignored<M>(
    max_jobs: nat,
    max_diags: nat,
    s0: ProfilerState<M>,
    s1: ProfilerState<M>,
    s2: ProfilerState<M>,
    first: JobEndWire,
    first_payload: Metadata,
    second: JobEndWire,
    second_payload: Metadata,
)
    requires
        active_unique(s0.active@),
        has_active(s0.active@, first.id@),
        s0.completed@.len() < max_jobs,
        end_recorded(max_jobs, max_diags, s0, s1, first, first_payload),
        second.id@ == first.id@,
        end_recorded(max_jobs, max_diags, s1, s2, second, second_payload),
    ensures
        s2 == s1,
{
    lemma_end_retires_running(max_jobs, max_diags, s0, s1, first, first_payload);
    let n = s1.completed@.len() as int;
    assert(s1.completed@[n - 1].id@ == second.id@);
    assert(recently_completed(s1.completed@, second.id@));
}

/// After a begin event, a job runs under the event's id (or the local id
/// it was given), with the event's name and category.
pub proof fn lemma_begin_runs<M>(
    max_diags: nat,
    old: ProfilerState<M>,
    new: ProfilerState<M>,
    wire: JobBeginWire,
    payload: Metadata,
)
    requires
        begin_recorded(max_diags, old, new, wire, payload),
        active_unique(new.active@),
    ensures
        has_active(new.active@, begin_id(wire, old.next_local_id)),
        new.active@[active_index(new.active@, begin_id(wire, old.next_local_id))].category@
            == sanitize_spec(opt_view(wire.category), "custom_job"@),
{
    let id = begin_id(wire, old.next_local_id);
    let (raw, job) = choose|raw: JobRecord<M>, job: JobRecord<M>|
        {
            &&& begin_fields(raw, wire, payload, id)
            &&& #[trigger] classified(raw, job)
            &&& active_put(old.active@, new.active@, job)
            &&& restart_diag(old.active@, old.diagnostics@, new.diagnostics@, job.id@, max_diags)
        };
    let k = if has_active(old.active@, job.id@) {
        active_index(old.active@, job.id@)
    } else {
        old.active@.len() as int
    };
    assert(new.active@[k] == job);
    assert(new.active@[k].id@ == id);
    let j = active_index(new.active@, id);
    assert(new.active@[j].id@ == new.active@[k].id@);
}

/// A status event settles whether its task runs: after a terminal phase
/// (`completed`, `failed` or `cancelled`) the task no longer runs; after any
/// other phase it runs, updated where it ran before and begun otherwise.
pub proof fn lemma_status_settles<M>(
    max_jobs: nat,
    max_diags: nat,
    old: ProfilerState<M>,
    new: ProfilerState<M>,
    wire: JobStatusWire,
    payload: Metadata,
)
    requires
        active_unique(old.active@),
        active_unique(new.active@),
        status_recorded(max_jobs, max_diags, old, new, wire, payload),
    ensures
        is_terminal_phase(status_phase(wire)) ==> !has_active(new.active@, wire.id@),
        !is_terminal_phase(status_phase(wire)) ==> has_active(new.active@, wire.id@),
{
    let id = wire.id@;
    if is_terminal_phase(status_phase(wire)) {
        let ew = choose|ew: JobEndWire|
            status_end_wire(ew, wire, payload) && #[trigger] end_recorded(
                max_jobs,
                max_diags,
                old,
                new,
                ew,
                payload,
            );
        assert(ew.id@ == id);
        if has_active(old.active@, id) {
            lemma_end_retires_running(max_jobs, max_diags, old, new, ew, payload);
        } else if recently_completed(old.completed@, id) {
        } else if late_recoverable(end_metadata(ew, payload)) {
            let (raw, job) = choose|raw: JobRecord<M>, job: JobRecord<M>|
                {
                    &&& late_fields(raw, id, ew, end_metadata(ew, payload))
                    &&& #[trigger] classified(raw, job)
                    &&& completed_with_parts(max_jobs, max_diags, old, new, job)
                };
            let parts = choose|parts: Seq<JobRecord<M>>|
                parts_of(job, parts) && #[trigger] completions(
                    max_jobs,
                    max_diags,
                    old,
                    new,
                    seq![job] + parts,
                );
            lemma_completions_keep(max_jobs, max_diags, old, new, seq![job] + parts);
        }
    } else if has_active(old.active@, id) {
        let i = active_index(old.active@, id);
        let (raw, job) = choose|raw: JobRecord<M>, job: JobRecord<M>|
            {
                &&& progress_fields(old.active@[i], raw, wire, status_phase(wire))
                &&& #[trigger] classified(raw, job)
                &&& new.active@ == old.active@.update(i, job)
            };
        assert(new.active@[i].id@ == id);
    } else {
        let bw = choose|bw: JobBeginWire|
            status_begin_wire(bw, wire, payload) && #[trigger] begin_recorded(
                max_diags,
                old,
                new,
                bw,
                payload,
            );
        lemma_begin_runs(max_diags, old, new, bw, payload);
        assert(begin_id(bw, old.next_local_id) == id);
    }
}

/// An accepted engine task event settles whether its task runs: after a
/// terminal phase (either spelling of cancelled included) the task no longer
/// runs; after any other phase it runs.
pub proof fn lemma_engine_task_settles<M>(
    max_jobs: nat,
    max_diags: nat,
    old: ProfilerState<M>,
    new: ProfilerState<M>,
    value: Metadata,
)
    requires
        active_unique(old.active@),
        active_unique(new.active@),
        engine_task_id(value.entries@) is Some,
        engine_recorded(max_jobs, max_diags, old, new, value),
    ensures
        engine_terminal(engine_phase(value.entries@)) ==> !has_active(
            new.active@,
            engine_task_id(value.entries@)->0,
        ),
        !engine_terminal(engine_phase(value.entries@)) ==> has_active(
            new.active@,
            engine_task_id(value.entries@)->0,
        ),
{
    let es = value.entries@;
    let id = engine_task_id(es)->0;
    if engine_terminal(engine_phase(es)) {
        let ew = choose|ew: JobEndWire|
            engine_end_wire(ew, id, value) && #[trigger] end_recorded(
                max_jobs,
                max_diags,
                old,
                new,
                ew,
                value,
            );
        if has_active(old.active@, id) {
            lemma_end_retires_running(max_jobs, max_diags, old, new, ew, value);
        } else if recently_completed(old.completed@, id) {
        } else if late_recoverable(end_metadata(ew, value)) {
            let (raw, job) = choose|raw: JobRecord<M>, job: JobRecord<M>|
                {
                    &&& late_fields(raw, id, ew, end_metadata(ew, value))
                    &&& #[trigger] classified(raw, job)
                    &&& completed_with_parts(max_jobs, max_diags, old, new, job)
                };
            let parts = choose|parts: Seq<JobRecord<M>>|
                parts_of(job, parts) && #[trigger] completions(
                    max_jobs,
                    max_diags,
                    old,
                    new,
                    seq![job] + parts,
                );
            lemma_completions_keep(max_jobs, max_diags, old, new, seq![job] + parts);
        }
    } else if has_active(old.active@, id) {
        let i = active_index(old.active@, id);
        let (raw, job) = choose|raw: JobRecord<M>, job: JobRecord<M>|
            {
                &&& engine_progress_fields(old.active@[i], raw, id, value)
                &&& #[trigger] classified(raw, job)
                &&& new.active@ == old.active@.update(i, job)
            };
        assert(new.active@[i].id@ == id);
    } else {
        let bw = choose|bw: JobBeginWire|
            engine_begin_wire(bw, id, value) && #[trigger] begin_recorded(
                max_diags,
                old,
                new,
                bw,
                value,
            );
        lemma_begin_runs(max_diags, old, new, bw, value);
        assert(begin_id(bw, old.next_local_id) == id);
    }
}

} // verus!
