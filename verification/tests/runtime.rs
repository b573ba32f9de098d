use newengine_profiler_plugin::classification::lower_join;
use newengine_profiler_plugin::metadata::{first_value_bool, MetaValue, Metadata};
use newengine_profiler_plugin::records::{
    CaptureConfig, DiagnosticsConfig, JobRecord, LoadFacts, ProfilerConfig, ProfilerRuntime,
    ProfilerState, SchedulingConfig,
};

#[derive(Clone, Copy, Debug, PartialEq)]
struct Timing {
    elapsed_ms: f64,
    budget_ms: f64,
    load: f64,
}

fn config(max_recent_jobs: usize) -> ProfilerConfig {
    ProfilerConfig {
        enabled: true,
        ignore_self: true,
        capture: CaptureConfig {
            service_calls: true,
            plugin_lifecycle: true,
            task_status_events: true,
            custom_events: true,
        },
        diagnostics: DiagnosticsConfig {
            max_recent_jobs,
            max_recent_diagnostics: 512,
        },
        scheduling: SchedulingConfig {
            service_flush_mode: "async".to_owned(),
            prefer_engine_jobs: true,
            require_engine_jobs: true,
        },
    }
}

#[test]
fn classification_join_is_lowercase_and_space_stable() {
    assert_eq!(
        lower_join(&[Some("RUNNING"), None, Some("GPU Wait")]),
        "running gpu wait"
    );
}

#[test]
fn bool_metadata_parser_is_case_insensitive_without_normalization() {
    let mut value = Metadata::new();
    value.push("", MetaValue::Object);
    value.push("/enabled", MetaValue::Str("YeS".to_owned()));
    value.push("/disabled", MetaValue::Str("OFF".to_owned()));
    assert_eq!(first_value_bool(&value, &["/enabled"]), Some(true));
    assert_eq!(first_value_bool(&value, &["/disabled"]), Some(false));
}

#[test]
fn completed_ring_preserves_slow_outlier_under_healthy_flood() {
    let slow_job_warn_ms = 16.67;
    let runtime = ProfilerRuntime::new(config(3));
    let mut state: ProfilerState<Timing> = ProfilerState::new();

    let make = |id: &str, elapsed_ms: f64| {
        let load = elapsed_ms / 16.67;
        JobRecord {
            id: id.to_owned(),
            name: id.to_owned(),
            category: "test".to_owned(),
            source: "test".to_owned(),
            lane: "test".to_owned(),
            priority: "normal".to_owned(),
            dependency_group: "test".to_owned(),
            frame_id: None,
            status: "completed".to_owned(),
            detail: String::new(),
            scheduled: false,
            blocked: false,
            polling: false,
            waited_on_gpu: false,
            stayed_async: false,
            exceeded_frame_budget: false,
            wait_reason: None,
            async_mode: None,
            started_unix_ms: 0,
            ended_unix_ms: Some(1),
            payload_bytes: None,
            output_bytes: None,
            error: None,
            metadata: Metadata::new(),
            facts: LoadFacts {
                slow: elapsed_ms >= slow_job_warn_ms,
                over_budget: load >= 1.0,
                sample_over_budget: load >= 1.0,
                gpu_wait_positive: false,
                elapsed_over_frame_budget: false,
            },
            timing: Timing {
                elapsed_ms,
                budget_ms: 16.67,
                load,
            },
        }
    };

    runtime.complete_job_locked(&mut state, make("slow", 48.0), "", 1);
    runtime.complete_job_locked(&mut state, make("normal-1", 0.2), "", 1);
    runtime.complete_job_locked(&mut state, make("normal-2", 0.2), "", 1);
    runtime.complete_job_locked(&mut state, make("normal-3", 0.2), "", 1);
    runtime.complete_job_locked(&mut state, make("normal-4", 0.2), "", 1);

    assert_eq!(state.completed.len(), 3);
    assert!(state.completed.iter().any(|job| job.id == "slow"));
}
