use newengine_profiler_plugin::constants::{TOPIC_ENGINE_TASK_EVENT, TOPIC_JOB_BEGIN, TOPIC_JOB_END};
use newengine_profiler_plugin::metadata::{number_u64_value_at, text_value_at, MetaValue, Metadata};
use newengine_profiler_plugin::records::{
    CaptureConfig, DiagnosticsConfig, LoadFacts, ProfilerConfig, ProfilerRuntime, ProfilerState,
    SchedulingConfig,
};
use newengine_profiler_plugin::recorder::{
    BudgetKind, JobBeginWire, JobEndWire, JobStatusWire, Measure, Stamp,
};
use serde_json::Value;

#[derive(Debug, Clone, PartialEq)]
struct Timing {
    elapsed_ms: Option<f64>,
    budget_ms: f64,
}

struct TestClock {
    now: u128,
    slow_ms: f64,
}

fn number_at(m: &Metadata, p: &str) -> Option<f64> {
    match m.get(p) {
        Some(MetaValue::Number(t)) => t.parse::<f64>().ok(),
        _ => None,
    }
}

fn facts(clock: &TestClock, elapsed: Option<f64>, budget: f64) -> LoadFacts {
    let e = elapsed.unwrap_or(0.0);
    LoadFacts {
        slow: e >= clock.slow_ms,
        over_budget: e / budget.max(0.001) >= 1.0,
        sample_over_budget: budget > 0.0 && e / budget >= 1.0,
        gpu_wait_positive: false,
        elapsed_over_frame_budget: false,
    }
}

fn budget_of(kind: BudgetKind) -> f64 {
    match kind {
        BudgetKind::ServiceCall => 8.0,
        BudgetKind::PluginLifecycle => 250.0,
        BudgetKind::TaskStatus => 16.0,
        BudgetKind::ReportFlush => 100.0,
        BudgetKind::CustomJob => 16.0,
    }
}

impl Measure<Timing> for TestClock {
    fn begun(&self, kind: BudgetKind, payload: &Metadata, _metadata: &Metadata) -> (Timing, LoadFacts) {
        let budget = number_at(payload, "/budget_ms").unwrap_or(budget_of(kind));
        (Timing { elapsed_ms: None, budget_ms: budget }, facts(self, None, budget))
    }

    fn progressed(
        &self,
        running: &Timing,
        _kind: BudgetKind,
        _payload: &Metadata,
        _metadata: &Metadata,
    ) -> (Timing, LoadFacts) {
        (running.clone(), facts(self, running.elapsed_ms, running.budget_ms))
    }

    fn ended(&self, running: &Timing, _payload: &Metadata, _metadata: &Metadata) -> (Timing, LoadFacts) {
        let t = Timing { elapsed_ms: Some(5.0), budget_ms: running.budget_ms };
        let f = facts(self, t.elapsed_ms, t.budget_ms);
        (t, f)
    }

    fn ended_late(
        &self,
        kind: BudgetKind,
        elapsed_text: &str,
        _payload: &Metadata,
        _metadata: &Metadata,
    ) -> Stamp<Timing> {
        let e: f64 = elapsed_text.parse().unwrap();
        let budget = budget_of(kind);
        Stamp {
            timing: Timing { elapsed_ms: Some(e), budget_ms: budget },
            facts: facts(self, Some(e), budget),
            started_unix_ms: self.now.saturating_sub(e.round().max(0.0) as u128),
            elapsed_positive: e > 0.0,
            over_frame_budget: false,
            elapsed_text: elapsed_text.to_owned(),
        }
    }

    fn observed(&self, kind: BudgetKind, elapsed_text: &Option<String>, payload: &Metadata) -> Stamp<Timing> {
        let e = elapsed_text.as_ref().map(|t| t.parse::<f64>().unwrap().max(0.0));
        let budget = number_at(payload, "/budget_ms").unwrap_or(budget_of(kind));
        Stamp {
            timing: Timing { elapsed_ms: Some(e.unwrap_or(0.0)), budget_ms: budget },
            facts: facts(self, e, budget),
            started_unix_ms: self.now,
            elapsed_positive: e.unwrap_or(0.0) > 0.0,
            over_frame_budget: false,
            elapsed_text: format!("{}", e.unwrap_or(0.0)),
        }
    }

    fn part(&self, parent: &Timing, elapsed_text: &str) -> Stamp<Timing> {
        let e = elapsed_text.parse::<f64>().unwrap().max(0.0);
        Stamp {
            timing: Timing { elapsed_ms: Some(e), budget_ms: parent.budget_ms },
            facts: facts(self, Some(e), parent.budget_ms),
            started_unix_ms: self.now,
            elapsed_positive: e > 0.0,
            over_frame_budget: false,
            elapsed_text: serde_json::Number::from_f64(e).unwrap().to_string(),
        }
    }

    fn describe(&self, timing: &Timing) -> String {
        format!("elapsed_ms={:.3}", timing.elapsed_ms.unwrap_or(0.0))
    }

    fn now_unix_ms(&self) -> u128 {
        self.now
    }
}

fn clock() -> TestClock {
    TestClock { now: 1_000_000, slow_ms: 16.67 }
}

fn config() -> ProfilerConfig {
    ProfilerConfig {
        enabled: true,
        ignore_self: true,
        capture: CaptureConfig {
            service_calls: true,
            plugin_lifecycle: true,
            task_status_events: true,
            custom_events: true,
        },
        diagnostics: DiagnosticsConfig {
            max_recent_jobs: 4096,
            max_recent_diagnostics: 512,
        },
        scheduling: SchedulingConfig {
            service_flush_mode: "async".to_owned(),
            prefer_engine_jobs: true,
            require_engine_jobs: true,
        },
    }
}

fn flatten(v: &Value, pointer: String, out: &mut Metadata) {
    match v {
        Value::Null => out.push(&pointer, MetaValue::Null),
        Value::Bool(b) => out.push(&pointer, MetaValue::Bool(*b)),
        Value::Number(n) => out.push(&pointer, MetaValue::Number(n.to_string())),
        Value::String(s) => out.push(&pointer, MetaValue::Str(s.clone())),
        Value::Array(items) => {
            out.push(&pointer, MetaValue::Array);
            for (i, x) in items.iter().enumerate() {
                flatten(x, format!("{pointer}/{i}"), out);
            }
        }
        Value::Object(map) => {
            out.push(&pointer, MetaValue::Object);
            for (k, x) in map {
                let key = k.replace('~', "~0").replace('/', "~1");
                flatten(x, format!("{pointer}/{key}"), out);
            }
        }
    }
}

fn meta(text: &str) -> Metadata {
    let v: Value = serde_json::from_str(text).unwrap();
    let mut m = Metadata::new();
    flatten(&v, String::new(), &mut m);
    m
}

fn begin(id: &str, category: &str) -> JobBeginWire {
    JobBeginWire {
        id: Some(id.to_owned()),
        name: Some(format!("{id} work")),
        label: None,
        category: Some(category.to_owned()),
        source: None,
        detail: None,
        payload_bytes: None,
        metadata: None,
        lane: Some("  AssetIo ".to_owned()),
        priority: None,
        dependency_group: None,
        frame_id: Some(7),
        wait_reason: None,
        async_mode: None,
    }
}

fn end(id: &str) -> JobEndWire {
    JobEndWire {
        id: id.to_owned(),
        status: None,
        detail: None,
        error: None,
        output_bytes: Some(64),
        metadata: None,
        lane: None,
        priority: None,
        dependency_group: None,
        frame_id: None,
        wait_reason: None,
        async_mode: None,
    }
}

#[test]
fn breakdown_parts_keep_compact_parent_identity_without_cloning_source_event() {
    let runtime = ProfilerRuntime::new(config());
    let mut state: ProfilerState<Timing> = ProfilerState::new();
    let payload = format!(
        "{{\"schema\":\"newengine.diagnostics.profiler.sample.v1\",\"category\":\"render\",\
         \"source\":\"render_controller\",\"name\":\"render cpu profile\",\"frame_id\":77,\
         \"elapsed_ms\":12.0,\"budget_ms\":16.67,\"breakdown\":\"feature_extract=5ms submit=7ms\",\
         \"large_debug_payload\":\"{}\"}}",
        "x".repeat(4096)
    );
    runtime.record_custom_event_locked(
        &mut state,
        &clock(),
        "newengine.diagnostics.profiler.sample.v1",
        meta(&payload),
    );

    let child = state
        .completed
        .iter()
        .find(|job| job.category == "render.breakdown")
        .expect("breakdown child must be retained");
    assert!(child.metadata.get("/source_event").is_none());
    assert_eq!(
        text_value_at(&child.metadata, "/parent_category"),
        Some("render".to_owned())
    );
    assert_eq!(
        text_value_at(&child.metadata, "/parent_source"),
        Some("render_controller".to_owned())
    );
    assert_eq!(number_u64_value_at(&child.metadata, "/parent_frame_id"), Some(77));
    assert!(child.metadata.get("/large_debug_payload").is_none());
}

#[test]
fn late_plugin_load_terminal_synthesizes_parent_and_breakdown_parts() {
    let runtime = ProfilerRuntime::new(config());
    let mut state: ProfilerState<Timing> = ProfilerState::new();
    let payload = meta(
        "{\"id\":\"host.plugin_load.3\",\"status\":\"completed\",\"detail\":\"plugin loaded in 246 ms\",\
         \"metadata\":{\"operation\":\"load_one\",\"path\":\"typeScriptScriptEngine.dll\",\"total_ms\":246.0,\
         \"breakdown\":\"dlopen=1ms discovery_verify=239ms init_total=4ms unattributed=2ms\"}}",
    );
    let wire = newengine_profiler_plugin::wire::parse_end_wire(&payload)
        .expect("late plugin terminal must be recoverable from rich metadata");
    runtime.record_end_locked(&mut state, &clock(), wire, payload);

    assert!(state
        .completed
        .iter()
        .any(|job| job.id == "host.plugin_load.3" && job.timing.elapsed_ms == Some(246.0)));
    assert!(state.completed.iter().any(|job| {
        job.name.ends_with("/discovery_verify") && job.timing.elapsed_ms == Some(239.0)
    }));
    assert!(!state
        .diagnostics
        .iter()
        .any(|diag| diag.code == "job_end_without_begin"));
}

#[test]
fn late_plugin_load_record_names_the_plugin_path() {
    let runtime = ProfilerRuntime::new(config());
    let mut state: ProfilerState<Timing> = ProfilerState::new();
    let payload = meta(
        "{\"id\":\"host.plugin_load.9\",\"metadata\":{\"operation\":\"load_one\",\
         \"path\":\"audio.dll\",\"elapsed_ms\":12}}",
    );
    let wire = newengine_profiler_plugin::wire::parse_end_wire(&payload).unwrap();
    runtime.record_end_locked(&mut state, &clock(), wire, payload);
    assert_eq!(state.completed.len(), 1);
    let job = &state.completed[0];
    assert_eq!(job.name, "plugin_load:audio.dll");
    assert_eq!(job.category, "plugin_lifecycle");
    assert_eq!(job.source, "newengine-plugin-host");
    assert_eq!(job.status, "completed");
    assert_eq!(
        job.detail,
        "Plugin load terminal event captured after profiler route became available"
    );
    assert_eq!(job.timing.budget_ms, 250.0);
}

#[test]
fn end_without_begin_is_reported() {
    let runtime = ProfilerRuntime::new(config());
    let mut state: ProfilerState<Timing> = ProfilerState::new();
    runtime.record_end_locked(&mut state, &clock(), end("ghost"), meta("{\"id\":\"ghost\"}"));
    assert!(state.completed.is_empty());
    assert_eq!(state.diagnostics.len(), 1);
    assert_eq!(state.diagnostics[0].code, "job_end_without_begin");
    assert_eq!(state.diagnostics[0].level, "warn");
    assert_eq!(
        state.diagnostics[0].message,
        "job 'ghost' ended without a matching begin event"
    );
    assert_eq!(state.diagnostics[0].job_id, Some("ghost".to_owned()));
}

#[test]
fn begin_then_end_retires_the_job() {
    let runtime = ProfilerRuntime::new(config());
    let mut state: ProfilerState<Timing> = ProfilerState::new();
    let c = clock();
    runtime.record_begin_locked(&mut state, &c, begin("a", "streaming"), meta("{\"id\":\"a\"}"));
    assert_eq!(state.active.len(), 1);
    assert_eq!(state.active[0].status, "running");
    assert_eq!(state.active[0].lane, "AssetIo");
    assert_eq!(state.active[0].priority, "unspecified");
    assert_eq!(state.active[0].source, "event");
    assert!(state.active[0].scheduled);
    runtime.record_end_locked(&mut state, &c, end("a"), meta("{\"id\":\"a\"}"));
    assert!(state.active.is_empty());
    assert_eq!(state.completed.len(), 1);
    let job = &state.completed[0];
    assert_eq!(job.id, "a");
    assert_eq!(job.name, "a work");
    assert_eq!(job.status, "completed");
    assert_eq!(job.output_bytes, Some(64));
    assert_eq!(job.frame_id, Some(7));
    assert_eq!(job.timing.elapsed_ms, Some(5.0));
}

#[test]
fn repeated_end_is_ignored() {
    let runtime = ProfilerRuntime::new(config());
    let mut state: ProfilerState<Timing> = ProfilerState::new();
    let c = clock();
    runtime.record_begin_locked(&mut state, &c, begin("a", "streaming"), meta("{}"));
    runtime.record_end_locked(&mut state, &c, end("a"), meta("{}"));
    runtime.record_end_locked(&mut state, &c, end("a"), meta("{}"));
    assert_eq!(state.completed.len(), 1);
    assert!(state.diagnostics.is_empty());
}

#[test]
fn begin_twice_replaces_and_warns() {
    let runtime = ProfilerRuntime::new(config());
    let mut state: ProfilerState<Timing> = ProfilerState::new();
    let c = clock();
    runtime.record_begin_locked(&mut state, &c, begin("a", "streaming"), meta("{}"));
    runtime.record_begin_locked(&mut state, &c, begin("a", "physics"), meta("{}"));
    assert_eq!(state.active.len(), 1);
    assert_eq!(state.active[0].category, "physics");
    assert_eq!(state.diagnostics.len(), 1);
    assert_eq!(state.diagnostics[0].code, "job_restarted_without_end");
    assert_eq!(
        state.diagnostics[0].message,
        "job 'a' was started again before an end event"
    );
}

#[test]
fn begin_without_id_takes_a_local_id() {
    let runtime = ProfilerRuntime::new(config());
    let mut state: ProfilerState<Timing> = ProfilerState::new();
    let mut wire = begin("x", "");
    wire.id = None;
    wire.name = None;
    runtime.record_begin_locked(&mut state, &clock(), wire, meta("{}"));
    assert_eq!(state.active[0].id, "local-1");
    assert_eq!(state.active[0].name, "local-1");
    assert_eq!(state.active[0].category, "custom_job");
    assert_eq!(state.next_local_id, 2);
}

#[test]
fn failed_end_status_comes_from_error() {
    let runtime = ProfilerRuntime::new(config());
    let mut state: ProfilerState<Timing> = ProfilerState::new();
    let c = clock();
    runtime.record_begin_locked(&mut state, &c, begin("a", "io"), meta("{}"));
    let mut e = end("a");
    e.error = Some("disk gone".to_owned());
    runtime.record_end_locked(&mut state, &c, e, meta("{}"));
    assert_eq!(state.completed[0].status, "failed");
    assert_eq!(state.diagnostics.len(), 1);
    assert_eq!(state.diagnostics[0].code, "failed_job");
    assert_eq!(state.diagnostics[0].message, "job 'a work' failed: disk gone");
}

#[test]
fn end_merges_metadata_field_by_field() {
    let runtime = ProfilerRuntime::new(config());
    let mut state: ProfilerState<Timing> = ProfilerState::new();
    let c = clock();
    let mut b = begin("a", "io");
    b.metadata = Some(meta("{\"keep\":1,\"replace\":{\"deep\":true}}"));
    runtime.record_begin_locked(&mut state, &c, b, meta("{}"));
    let mut e = end("a");
    e.metadata = Some(meta("{\"replace\":2,\"added\":\"yes\"}"));
    runtime.record_end_locked(&mut state, &c, e, meta("{}"));
    let m = &state.completed[0].metadata;
    assert_eq!(number_u64_value_at(m, "/keep"), Some(1));
    assert_eq!(number_u64_value_at(m, "/replace"), Some(2));
    assert!(m.get("/replace/deep").is_none());
    assert_eq!(text_value_at(m, "/added"), Some("yes".to_owned()));
}

#[test]
fn status_events_begin_update_and_end_a_task() {
    let runtime = ProfilerRuntime::new(config());
    let mut state: ProfilerState<Timing> = ProfilerState::new();
    let c = clock();
    let status = |phase: &str| JobStatusWire {
        id: "t".to_owned(),
        phase: Some(phase.to_owned()),
        kind: Some("shader.compile".to_owned()),
        label: Some("compile".to_owned()),
        detail: None,
        metadata: None,
        lane: None,
        priority: Some("High".to_owned()),
        dependency_group: None,
        frame_id: None,
        wait_reason: None,
        async_mode: None,
    };
    runtime.record_status_locked(&mut state, &c, status("Queued"), meta("{}"));
    assert_eq!(state.active.len(), 1);
    assert_eq!(state.active[0].source, "task_status");
    assert_eq!(state.active[0].category, "shader.compile");
    assert!(state.active[0].stayed_async);
    runtime.record_status_locked(&mut state, &c, status("Running"), meta("{}"));
    assert_eq!(state.active[0].status, "running");
    runtime.record_status_locked(&mut state, &c, status("CANCELLED"), meta("{}"));
    assert!(state.active.is_empty());
    assert_eq!(state.completed[0].status, "cancelled");
    assert_eq!(state.completed[0].detail, "");
}

#[test]
fn engine_task_without_id_is_refused() {
    let runtime = ProfilerRuntime::new(config());
    let mut state: ProfilerState<Timing> = ProfilerState::new();
    let r = runtime.record_engine_task_event_locked(&mut state, &clock(), meta("{\"phase\":\"Running\"}"));
    assert_eq!(r, Err("engine task event has no task_id".to_owned()));
    assert!(state.active.is_empty());
}

#[test]
fn engine_task_with_mistyped_lane_is_refused() {
    let runtime = ProfilerRuntime::new(config());
    let mut state: ProfilerState<Timing> = ProfilerState::new();
    let r = runtime.record_engine_task_event_locked(
        &mut state,
        &clock(),
        meta("{\"task_id\":\"t\",\"lane\":5}"),
    );
    assert!(r.is_err());
    assert!(state.active.is_empty());
}

#[test]
fn engine_task_canceled_spelling_reads_cancelled() {
    let runtime = ProfilerRuntime::new(config());
    let mut state: ProfilerState<Timing> = ProfilerState::new();
    let c = clock();
    runtime
        .record_engine_task_event_locked(&mut state, &c, meta("{\"task_id\":\"t\",\"name\":\"bake\"}"))
        .unwrap();
    assert_eq!(state.active[0].name, "bake");
    assert_eq!(state.active[0].category, "engine_task");
    assert_eq!(state.active[0].source, "engine.task.event");
    runtime
        .record_engine_task_event_locked(&mut state, &c, meta("{\"task_id\":\"t\",\"phase\":\"Canceled\"}"))
        .unwrap();
    assert!(state.active.is_empty());
    assert_eq!(state.completed[0].status, "cancelled");
}

#[test]
fn zero_cost_input_events_are_dropped() {
    let runtime = ProfilerRuntime::new(config());
    let mut state: ProfilerState<Timing> = ProfilerState::new();
    runtime.record_custom_event_locked(
        &mut state,
        &clock(),
        "input",
        meta("{\"category\":\"Event\",\"source\":\"cursor\",\"name\":\"winit.mouse_moved\"}"),
    );
    assert!(state.completed.is_empty());
    assert_eq!(state.next_local_id, 2);
}

#[test]
fn custom_event_reads_its_duration_from_detail() {
    let runtime = ProfilerRuntime::new(config());
    let mut state: ProfilerState<Timing> = ProfilerState::new();
    runtime.record_custom_event_locked(
        &mut state,
        &clock(),
        "asset.loaded",
        meta("{\"id\":\"e1\",\"detail\":\"decode took 3.5 ms\",\"async_mode\":\"worker\"}"),
    );
    let job = &state.completed[0];
    assert_eq!(job.id, "e1");
    assert_eq!(job.name, "asset.loaded");
    assert_eq!(job.category, "event");
    assert_eq!(job.source, "event_bus");
    assert_eq!(job.timing.elapsed_ms, Some(3.5));
    assert!(job.stayed_async);
}

#[test]
fn events_are_counted_and_routed() {
    let runtime = ProfilerRuntime::new(config());
    let mut state: ProfilerState<Timing> = ProfilerState::new();
    let c = clock();
    runtime.on_event(&mut state, &c, TOPIC_JOB_BEGIN, Ok(meta("{\"id\":\"j\",\"category\":\"io\"}")));
    assert_eq!(state.events_seen, 1);
    assert_eq!(state.active.len(), 1);
    runtime.on_event(&mut state, &c, TOPIC_JOB_END, Ok(meta("{\"id\":\"j\"}")));
    assert_eq!(state.completed.len(), 1);
    runtime.on_event(&mut state, &c, TOPIC_JOB_END, Ok(meta("{\"status\":\"done\"}")));
    assert_eq!(state.malformed_events, 1);
    assert_eq!(state.diagnostics[0].code, "bad_job_end_event");
    assert_eq!(state.diagnostics[0].message, "bad job end event: missing field `id`");
    runtime.on_event(&mut state, &c, TOPIC_ENGINE_TASK_EVENT, Ok(meta("{}")));
    assert_eq!(state.malformed_events, 2);
    assert_eq!(
        state.diagnostics[1].message,
        "bad engine task event: engine task event has no task_id"
    );
    runtime.on_event(&mut state, &c, "anything", Err("expected value at line 1".to_owned()));
    assert_eq!(state.malformed_events, 3);
    assert_eq!(
        state.diagnostics[2].message,
        "event topic='anything' has invalid JSON: expected value at line 1"
    );
    assert_eq!(state.events_seen, 5);
}

#[test]
fn own_events_are_ignored() {
    let runtime = ProfilerRuntime::new(config());
    let mut state: ProfilerState<Timing> = ProfilerState::new();
    runtime.on_event(
        &mut state,
        &clock(),
        "sample",
        Ok(meta("{\"plugin_id\":\"newengine.profiler\",\"elapsed_ms\":3}")),
    );
    assert_eq!(state.events_seen, 1);
    assert!(state.completed.is_empty());
}

#[test]
fn disabled_profiler_counts_nothing() {
    let mut cfg = config();
    cfg.enabled = false;
    let runtime = ProfilerRuntime::new(cfg);
    let mut state: ProfilerState<Timing> = ProfilerState::new();
    runtime.on_event(&mut state, &clock(), "sample", Ok(meta("{}")));
    assert_eq!(state.events_seen, 0);
}

#[test]
fn measured_input_events_are_recorded() {
    let runtime = ProfilerRuntime::new(config());
    let mut state: ProfilerState<Timing> = ProfilerState::new();
    let event = meta("{\"category\":\"Event\",\"source\":\"cursor\",\"name\":\"winit.mouse_moved\",\"elapsed_ms\":2}");
    let clock = clock();
    let took_time = clock.observed(BudgetKind::CustomJob, &Some("2".to_owned()), &event);
    runtime.record_observed_event(&mut state, &clock, "input", event.clone(), "m1".to_owned(), took_time);
    assert_eq!(state.completed.len(), 1);
    assert_eq!(state.completed[0].id, "m1");
    assert_eq!(state.completed[0].timing.elapsed_ms, Some(2.0));
    let instant = clock.observed(BudgetKind::CustomJob, &None, &event);
    runtime.record_observed_event(&mut state, &clock, "input", event, "m2".to_owned(), instant);
    assert_eq!(state.completed.len(), 1);
    assert_eq!(state.next_local_id, 1);
}
