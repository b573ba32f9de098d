use std::collections::VecDeque;

use newengine_profiler_plugin::budget_tree::{build_work_budget_tree, normalized_key, normalized_label};
use newengine_profiler_plugin::metadata::{MetaValue, Metadata};
use newengine_profiler_plugin::pressure::{build_population_pressure, build_streaming_pressure};
use newengine_profiler_plugin::records::{JobRecord, LoadFacts};
use newengine_profiler_plugin::summary::{budget_violation_positions, frame_budget_violation_positions, report_totals};
use serde_json::Value;

#[derive(Debug, Clone, Copy, PartialEq)]
struct Timing {
    elapsed_ms: f64,
    budget_ms: f64,
}

fn flatten(v: &Value, pointer: String, out: &mut Metadata) {
    match v {
        Value::Null => out.push(&pointer, MetaValue::Null),
        Value::Bool(b) => out.push(&pointer, MetaValue::Bool(*b)),
        Value::Number(n) => out.push(&pointer, MetaValue::Number(n.to_string())),
        Value::String(s) => out.push(&pointer, MetaValue::Str(s.clone())),
        Value::Array(items) => {
            out.push(&pointer, MetaValue::Array);
            for (i, x) in items.iter().enumerate() {
                flatten(x, format!("{pointer}/{i}"), out);
            }
        }
        Value::Object(map) => {
            out.push(&pointer, MetaValue::Object);
            for (k, x) in map {
                let key = k.replace('~', "~0").replace('/', "~1");
                flatten(x, format!("{pointer}/{key}"), out);
            }
        }
    }
}

fn meta_of(v: &Value) -> Metadata {
    let mut m = Metadata::new();
    flatten(v, String::new(), &mut m);
    m
}

fn finite_non_negative(value: f64) -> f64 {
    if value.is_finite() {
        value.max(0.0)
    } else {
        0.0
    }
}

fn job(name: &str, lane: &str, category: &str, elapsed_ms: f64, budget_ms: f64) -> JobRecord<Timing> {
    let load = if budget_ms > 0.0 { elapsed_ms / budget_ms } else { 0.0 };
    let allowance = finite_non_negative(budget_ms);
    let sample_load = if allowance > 0.0 {
        finite_non_negative(elapsed_ms) / allowance
    } else {
        finite_non_negative(load)
    };
    JobRecord {
        id: name.to_owned(),
        name: name.to_owned(),
        category: category.to_owned(),
        source: "test".to_owned(),
        lane: lane.to_owned(),
        priority: "normal".to_owned(),
        dependency_group: String::new(),
        frame_id: Some(1),
        status: "completed".to_owned(),
        detail: String::new(),
        scheduled: true,
        blocked: false,
        polling: false,
        waited_on_gpu: false,
        stayed_async: true,
        exceeded_frame_budget: false,
        wait_reason: None,
        async_mode: Some("engine.threading".to_owned()),
        started_unix_ms: 0,
        ended_unix_ms: Some(1),
        payload_bytes: None,
        output_bytes: None,
        error: None,
        metadata: meta_of(&Value::Null),
        facts: LoadFacts {
            slow: elapsed_ms >= 16.67,
            over_budget: load >= 1.0,
            sample_over_budget: sample_load >= 1.0,
            gpu_wait_positive: false,
            elapsed_over_frame_budget: false,
        },
        timing: Timing { elapsed_ms, budget_ms },
    }
}

#[test]
fn aggregates_runtime_lane_and_category_without_double_counting_root() {
    let jobs = VecDeque::from([
        job("a", "asset-io", "streaming", 2.0, 4.0),
        job("b", "asset-io", "streaming", 6.0, 4.0),
        job("c", "simulation", "ai", 1.0, 2.0),
    ]);

    let tree = build_work_budget_tree(&jobs);
    assert_eq!(tree.id, "runtime");
    assert_eq!(tree.sample_count, 3);
    assert_eq!(tree.over_budget_samples, 1);
    assert_eq!(tree.lanes.len(), 2);

    let asset_io = tree.lanes.iter().find(|node| node.id == "runtime/asset-io").unwrap();
    assert_eq!(asset_io.members, vec![0, 1]);
    assert_eq!(asset_io.over_budget_samples, 1);
    assert_eq!(asset_io.categories.len(), 1);
    assert_eq!(asset_io.categories[0].id, "runtime/asset-io/streaming");
    assert_eq!(asset_io.categories[0].members, vec![0, 1]);

    let simulation = tree.lanes.iter().find(|node| node.id == "runtime/simulation").unwrap();
    assert_eq!(simulation.members, vec![2]);
    assert_eq!(simulation.over_budget_samples, 0);
    assert_eq!(simulation.categories[0].id, "runtime/simulation/ai");

    let lane_samples: usize = tree.lanes.iter().map(|lane| lane.members.len()).sum();
    assert_eq!(lane_samples, tree.sample_count);
}

#[test]
fn reports_peak_and_over_budget_samples() {
    let jobs = VecDeque::from([
        job("good", "simulation", "ai", 1.0, 2.0),
        job("bad", "simulation", "ai", 7.0, 2.0),
    ]);
    let tree = build_work_budget_tree(&jobs);
    assert_eq!(tree.over_budget_samples, 1);
    assert_eq!(tree.lanes[0].over_budget_samples, 1);
    assert_eq!(tree.lanes[0].categories[0].over_budget_samples, 1);
    assert_eq!(tree.lanes[0].categories[0].members, vec![0, 1]);
}

#[test]
fn non_finite_timings_are_still_counted() {
    let jobs = VecDeque::from([
        job("nan", "simulation", "ai", f64::NAN, 2.0),
        job("inf", "simulation", "ai", f64::INFINITY, f64::INFINITY),
        job("endless", "simulation", "ai", f64::INFINITY, 2.0),
    ]);
    assert!(jobs[2].facts.over_budget);
    let tree = build_work_budget_tree(&jobs);
    assert_eq!(tree.sample_count, 3);
    assert_eq!(tree.over_budget_samples, 0);
    assert_eq!(tree.lanes.len(), 1);
    assert_eq!(tree.lanes[0].categories[0].members, vec![0, 1, 2]);
}

#[test]
fn empty_labels_are_retained_under_explicit_fallback_nodes() {
    let jobs = VecDeque::from([job("unknown", "  ", "", 1.0, 2.0)]);
    let tree = build_work_budget_tree(&jobs);
    assert_eq!(tree.lanes[0].id, "runtime/unspecified");
    assert_eq!(tree.lanes[0].name, "Unspecified lane");
    assert_eq!(tree.lanes[0].categories[0].id, "runtime/unspecified/uncategorized");
}

#[test]
fn ids_are_normalized_deterministically() {
    let jobs = VecDeque::from([job("normalize", "Render Prep / Main", "Mesh Extraction", 1.0, 2.0)]);
    let tree = build_work_budget_tree(&jobs);
    assert_eq!(tree.lanes[0].id, "runtime/render-prep-main");
    assert_eq!(tree.lanes[0].categories[0].id, "runtime/render-prep-main/mesh-extraction");
}

#[test]
fn normalized_keys_and_labels() {
    assert_eq!(normalized_key("  Render Prep / Main ", "x"), "render-prep-main");
    assert_eq!(normalized_key("--", "fallback"), "fallback");
    assert_eq!(normalized_key("", "fallback"), "fallback");
    assert_eq!(normalized_label("  Mesh ", "Other"), "Mesh");
    assert_eq!(normalized_label("   ", "Other"), "Other");
}

#[test]
fn every_job_sits_in_exactly_one_lane_and_category() {
    let jobs = VecDeque::from([
        job("a", "b", "x", 1.0, 1.0),
        job("b", "a", "y", 1.0, 1.0),
        job("c", "b", "y", 1.0, 1.0),
        job("d", "b", "x", 1.0, 1.0),
    ]);
    let tree = build_work_budget_tree(&jobs);
    let mut seen = vec![0; jobs.len()];
    for lane in &tree.lanes {
        for cat in &lane.categories {
            for &m in &cat.members {
                seen[m] += 1;
            }
        }
    }
    assert_eq!(seen, vec![1, 1, 1, 1]);
    assert_eq!(tree.lanes[0].id, "runtime/a");
    assert_eq!(tree.lanes[1].members, vec![0, 2, 3]);
}

#[test]
fn report_totals_count_flags_and_sum_bytes() {
    let mut a = job("a", "l", "c", 20.0, 4.0);
    a.payload_bytes = Some(u64::MAX);
    a.blocked = true;
    let mut b = job("b", "l", "c", 1.0, 4.0);
    b.payload_bytes = Some(5);
    b.status = "failed".to_owned();
    b.exceeded_frame_budget = true;
    let jobs = VecDeque::from([a, b]);
    let t = report_totals(&jobs);
    assert_eq!(t.failed_jobs, 1);
    assert_eq!(t.slow_or_over_budget_jobs, 1);
    assert_eq!(t.over_budget_jobs, 1);
    assert_eq!(t.blocked_jobs, 1);
    assert_eq!(t.scheduled_jobs, 2);
    assert_eq!(t.frame_budget_exceeded_jobs, 1);
    assert_eq!(t.total_payload_bytes, u64::MAX);
    assert_eq!(t.total_output_bytes, 0);
    assert_eq!(budget_violation_positions(&jobs), vec![0]);
    assert_eq!(frame_budget_violation_positions(&jobs), vec![1]);
}

fn stream_record(frame: u64, pressure: f64, misses: u64, latency: u64) -> JobRecord<Timing> {
    let text = format!(
        "{{\"schema\":\"newengine.assets.streaming.control_plane.profiler.v1\",\"frame_id\":{frame},\
         \"streaming\":{{\"budget_bytes\":1000,\"committed_bytes\":{},\"projected_resident_bytes\":900,\
         \"pressure_ratio\":{pressure},\"pending_assets\":{frame},\"pending_demands\":{},\"in_flight_assets\":2,\
         \"in_flight_bytes\":100,\"over_budget_bytes\":{},\"deadline_misses\":{misses},\
         \"total_deadline_misses\":{misses},\"provider_failures\":{},\"admissions_dispatched\":1,\
         \"evictions_dispatched\":0,\"completed_loads\":1,\"average_load_latency_frames\":{}.0,\
         \"max_load_latency_frames\":{latency}}}}}",
        (pressure * 1000.0) as u64,
        frame + 1,
        if pressure > 1.0 { 100 } else { 0 },
        if frame == 2 { 1 } else { 0 },
        latency
    );
    let mut r = job(&format!("stream-{frame}"), "AssetIo", "asset_streaming_control_plane", 0.2, 1.0);
    r.frame_id = Some(frame);
    r.metadata = meta_of(&serde_json::from_str::<Value>(&text).unwrap());
    r
}

#[test]
fn pressure_report_is_frame_ordered_and_tracks_peaks() {
    let jobs = VecDeque::from([
        stream_record(2, 1.2, 3, 8),
        stream_record(1, 0.7, 1, 4),
        stream_record(3, 0.9, 4, 5),
    ]);
    let report = build_streaming_pressure(&jobs);
    assert_eq!(report.series.len(), 3);
    assert_eq!(report.total_deadline_misses, 4);
    assert_eq!(report.peak_load_latency_frames, 8);
    assert_eq!(report.provider_failure_observations, 1);
    assert_eq!(report.series[0].frame_id, 1);
    assert_eq!(report.series[2].frame_id, 3);
    let positions: Vec<usize> = report.series.iter().map(|s| s.job).collect();
    assert_eq!(positions, vec![1, 0, 2]);
    assert_eq!(report.series.last().map(|s| s.frame_id), Some(3));
}

#[test]
fn unrelated_profiler_samples_are_ignored() {
    let mut unrelated = stream_record(1, 0.5, 0, 1);
    unrelated.metadata = meta_of(&serde_json::from_str::<Value>("{\"schema\":\"other.schema\",\"streaming\":{}}").unwrap());
    let report = build_streaming_pressure(&VecDeque::from([unrelated]));
    assert_eq!(report.series.len(), 0);
    assert!(report.series.last().is_none());
}

fn population_record(frame: u64, debt: u64, density: f64, teleport: bool) -> JobRecord<Timing> {
    let text = format!(
        "{{\"schema\":\"newengine.population.control_plane.profiler.v1\",\"population\":{{\"subjects\":100,\
         \"managed_subjects\":90,\"protected_subjects\":10,\"spawn_requested\":8,\"spawn_admitted\":4,\
         \"spawn_deferred\":4,\"retire_requested\":3,\"retire_admitted\":2,\"retire_deferred\":1,\
         \"creation_debt\":{debt},\"destruction_debt\":{},\"starvation_promotions\":{frame},\
         \"region_quota_clips\":1,\"teleport_rebuild\":{teleport},\"teleport_rebuilds_total\":{},\
         \"cpu_pressure\":0.5,\"model_memory_pressure\":0.7,\"density_scale\":{density:?},\
         \"model_pressure_rows\":4,\"peak_model_pressure\":920}}}}",
        debt / 2,
        if teleport { 1 } else { 0 }
    );
    let mut r = job(&format!("population-{frame}"), "Simulation", "population_control_plane", 0.1, 1.0);
    r.frame_id = Some(frame);
    r.metadata = meta_of(&serde_json::from_str::<Value>(&text).unwrap());
    r
}

#[test]
fn population_report_tracks_debt_density_and_teleports() {
    let jobs = VecDeque::from([
        population_record(2, 9, 0.5, true),
        population_record(1, 3, 0.8, false),
        population_record(3, 4, 0.7, false),
    ]);
    let report = build_population_pressure(&jobs);
    assert_eq!(report.series.len(), 3);
    assert_eq!(report.peak_creation_debt, 9);
    assert_eq!(report.teleport_rebuilds_total, 1);
    assert_eq!(report.series[0].frame_id, 1);
    assert_eq!(report.series[1].flags, vec![true]);
    assert_eq!(report.total_starvation_promotions, 6);
    let positions: Vec<usize> = report.series.iter().map(|s| s.job).collect();
    assert_eq!(positions, vec![1, 0, 2]);
}

#[test]
fn unrelated_samples_are_ignored() {
    let mut unrelated = population_record(1, 2, 1.0, false);
    unrelated.metadata = meta_of(&serde_json::from_str::<Value>("{\"schema\":\"other.schema\",\"population\":{}}").unwrap());
    let report = build_population_pressure(&VecDeque::from([unrelated]));
    assert_eq!(report.series.len(), 0);
}

#[test]
fn over_budget_counts_add_up_per_level() {
    let jobs = VecDeque::from([
        job("a", "render", "mesh", 5.0, 2.0),
        job("b", "render", "cull", 1.0, 2.0),
        job("c", "audio", "mix", 3.0, 1.0),
        job("d", "render", "mesh", 4.0, 4.0),
        job("e", "audio", "mix", 0.5, 1.0),
    ]);
    let tree = build_work_budget_tree(&jobs);
    assert_eq!(tree.over_budget_samples, 3);
    let lanes: usize = tree.lanes.iter().map(|lane| lane.over_budget_samples).sum();
    assert_eq!(lanes, tree.over_budget_samples);
    for lane in &tree.lanes {
        let categories: usize = lane.categories.iter().map(|c| c.over_budget_samples).sum();
        assert_eq!(categories, lane.over_budget_samples);
    }
    let render = tree.lanes.iter().find(|lane| lane.id == "runtime/render").unwrap();
    assert_eq!(render.over_budget_samples, 2);
    assert_eq!(render.categories[1].id, "runtime/render/mesh");
    assert_eq!(render.categories[1].over_budget_samples, 2);
}
