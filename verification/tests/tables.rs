use std::collections::VecDeque;

use newengine_profiler_plugin::metadata::{MetaValue, Metadata};
use newengine_profiler_plugin::records::{JobRecord, LoadFacts, ProfilerDiagnostic};
use newengine_profiler_plugin::tables::{
    active_jobs_table, budget_violations_table, category_table, completed_jobs_table,
    diagnostics_table, frame_budget_table, profiler_first_table, summary_table, timeline_table,
    FigureCells, FirstCounts, SummaryDoc,
};

fn record(id: &str, metadata: Metadata) -> JobRecord<()> {
    JobRecord {
        id: id.to_owned(),
        name: format!("{id} work"),
        category: "render".to_owned(),
        source: "engine".to_owned(),
        lane: "  ".to_owned(),
        priority: "high".to_owned(),
        dependency_group: "null".to_owned(),
        frame_id: None,
        status: "completed".to_owned(),
        detail: "took, \"long\"".to_owned(),
        scheduled: true,
        blocked: false,
        polling: false,
        waited_on_gpu: true,
        stayed_async: false,
        exceeded_frame_budget: true,
        wait_reason: Some("gpu".to_owned()),
        async_mode: None,
        started_unix_ms: 1_500,
        ended_unix_ms: Some(1_520),
        payload_bytes: Some(10),
        output_bytes: None,
        error: None,
        metadata,
        facts: LoadFacts {
            slow: true,
            over_budget: true,
            sample_over_budget: true,
            gpu_wait_positive: true,
            elapsed_over_frame_budget: true,
        },
        timing: (),
    }
}

fn meta() -> Metadata {
    let mut m = Metadata::new();
    m.push("", MetaValue::Object);
    m.push("/lane", MetaValue::Str("gpu-lane".to_owned()));
    m.push("/event", MetaValue::Object);
    m.push("/event/dependency_group", MetaValue::Str("dg".to_owned()));
    m.push("/frame_id", MetaValue::Number("42".to_owned()));
    m.push("/task_pass", MetaValue::Bool(true));
    m.push("/method_name", MetaValue::Str("flush".to_owned()));
    m.push("/metadata", MetaValue::Object);
    m.push("/metadata/plugin_id", MetaValue::Null);
    m
}

fn figures() -> FigureCells {
    FigureCells {
        elapsed: "20.000000".to_owned(),
        budget: "10.000000".to_owned(),
        frame_budget: String::new(),
        load: "2.000000".to_owned(),
        load_percent: "200.000".to_owned(),
        over_budget: "true".to_owned(),
        gpu_wait: String::new(),
        progress: "0.500000".to_owned(),
        frame_excess: "4.000000".to_owned(),
    }
}

#[test]
fn completed_rows_fall_back_to_metadata() {
    let jobs = VecDeque::from([record("a", meta())]);
    let out = completed_jobs_table(&jobs, &vec![figures()]);
    let lines: Vec<&str> = out.lines().collect();
    assert_eq!(lines.len(), 2);
    assert!(lines[0].starts_with("id,status,category,source,lane,priority,dependency_group,frame_id,"));
    assert!(lines[0].ends_with(",error,detail"));
    assert_eq!(
        lines[1],
        "a,completed,render,engine,gpu-lane,high,dg,42,,true,,a work,20.000000,10.000000,,2.000000,\
200.000,true,true,,gpu,true,false,false,true,false,,1500,1520,10,,,flush,,,,\"took, \"\"long\"\"\""
    );
}

#[test]
fn budget_violations_are_ranked_in_the_given_order() {
    let jobs = VecDeque::from([record("a", Metadata::new()), record("b", Metadata::new())]);
    let out = budget_violations_table(&jobs, &vec![1, 0], &vec![figures(), figures()]);
    let lines: Vec<&str> = out.lines().collect();
    assert_eq!(lines.len(), 3);
    assert!(lines[0].starts_with("rank,id,status,"));
    assert!(lines[1].starts_with("1,b,completed,render,engine,,high,,,"));
    assert!(lines[2].starts_with("2,a,"));
}

#[test]
fn active_rows_carry_progress() {
    let active = vec![record("r", Metadata::new())];
    let out = active_jobs_table(&active, &vec![figures()]);
    let row = out.lines().nth(1).unwrap();
    assert!(row.starts_with("r,completed,render,engine,"));
    assert!(row.contains(",2.000000,200.000,true,0.500000,false,false,true,false,,gpu,,1500,"));
}

#[test]
fn timeline_offsets_are_from_the_run_start() {
    let mut late = record("late", Metadata::new());
    late.ended_unix_ms = None;
    let jobs = VecDeque::from([record("a", Metadata::new()), late]);
    let out = timeline_table(&jobs, 1_510, &vec![figures(), figures()]);
    let lines: Vec<&str> = out.lines().collect();
    assert!(lines[1].starts_with("a,render,engine,a work,completed,0,10,20.000000,10.000000,2.000000,"));
    assert!(lines[2].starts_with("late,render,engine,late work,completed,0,0,"));
}

#[test]
fn frame_budget_rows_show_the_excess() {
    let jobs = VecDeque::from([record("a", meta())]);
    let out = frame_budget_table(&jobs, &vec![0], &vec![figures()]);
    let row = out.lines().nth(1).unwrap();
    assert!(row.starts_with("1,a,,completed,gpu-lane,high,dg,render,engine,a work,20.000000,,4.000000,"));
}

#[test]
fn diagnostics_rows_list_every_entry() {
    let diags = VecDeque::from([ProfilerDiagnostic {
        level: "warn".to_owned(),
        code: "slow_job".to_owned(),
        message: "slow, again".to_owned(),
        job_id: None,
        at_unix_ms: 77,
    }]);
    assert_eq!(diagnostics_table(&diags), "at_unix_ms,level,code,job_id,message\n77,warn,slow_job,,\"slow, again\"\n");
}

fn summary(key: &str) -> SummaryDoc {
    SummaryDoc {
        key: Some(key.to_owned()),
        category: Some("cat".to_owned()),
        source: None,
        sample_name: Some("first, job".to_owned()),
        count: Some(2),
        failed: Some(0),
        slow: None,
        payload_bytes: Some(5),
        output_bytes: None,
        total_ms: "3.000000".to_owned(),
        share: "75.000000".to_owned(),
        average_ms: "1.500000".to_owned(),
        max_ms: "2.000000".to_owned(),
        max_load: "0.500000".to_owned(),
    }
}

#[test]
fn summary_tables_rank_their_rows() {
    let out = summary_table(&vec![summary("a"), summary("b")]);
    let lines: Vec<&str> = out.lines().collect();
    assert_eq!(lines[0], "rank,key,category,source,sample_name,count,failed,slow,total_elapsed_ms,total_share_percent,average_elapsed_ms,max_elapsed_ms,max_load,total_payload_bytes,total_output_bytes");
    assert_eq!(lines[2], "2,b,cat,,\"first, job\",2,0,,3.000000,75.000000,1.500000,2.000000,0.500000,5,");
    let cats = category_table(&vec![summary("x")]);
    assert_eq!(cats.lines().nth(1).unwrap(), "1,cat,2,0,,3.000000,75.000000,1.500000,2.000000");
}

#[test]
fn profiler_first_table_has_one_row() {
    let out = profiler_first_table(&FirstCounts {
        scheduled_jobs: Some(4),
        blocked_jobs: Some(1),
        blocked_share: "25.000000".to_owned(),
        polling_jobs: None,
        gpu_wait_jobs: Some(0),
        gpu_wait_share: "0.000000".to_owned(),
        frame_budget_exceeded_jobs: Some(2),
        async_jobs: Some(3),
        async_share: "75.000000".to_owned(),
    });
    assert_eq!(out.lines().count(), 2);
    assert_eq!(out.lines().nth(1).unwrap(), "4,1,25.000000,,0,0.000000,2,3,75.000000");
}

#[test]
fn rows_have_a_cell_per_column() {
    let mut plain = record("p", Metadata::new());
    plain.detail = "done".to_owned();
    let jobs = VecDeque::from([plain]);
    let completed = completed_jobs_table(&jobs, &vec![figures()]);
    let lines: Vec<&str> = completed.lines().collect();
    assert_eq!(lines[0].split(',').count(), 37);
    assert_eq!(lines[1].split(',').count(), 37);
    let violations = budget_violations_table(&jobs, &vec![0], &vec![figures()]);
    let lines: Vec<&str> = violations.lines().collect();
    assert_eq!(lines[0].split(',').count(), 31);
    assert_eq!(lines[1].split(',').count(), 31);
    assert!(lines[1].starts_with("1,p,"));
}
