use newengine_profiler_plugin::report_md::{
    markdown_report, AggregateDoc, ChartDoc, DiagnosticDoc, FirstDoc, JobDoc, PercentileDoc,
    ReportDoc, WorstDoc,
};

fn pct(v: &str) -> PercentileDoc {
    PercentileDoc { p50: v.to_owned(), p90: v.to_owned(), p95: v.to_owned(), p99: v.to_owned() }
}

fn agg(key: &str) -> AggregateDoc {
    AggregateDoc {
        key: Some(key.to_owned()),
        category: Some("cat|x".to_owned()),
        source: None,
        count: 3,
        failed: 1,
        slow: 2,
        total_ms: "9.000".to_owned(),
        share: "90.0".to_owned(),
        average_ms: "3.000".to_owned(),
        max_ms: "5.000".to_owned(),
        max_load: "1.50".to_owned(),
    }
}

fn job(name: &str) -> JobDoc {
    JobDoc {
        status: Some("completed".to_owned()),
        category: Some("render".to_owned()),
        source: None,
        name: Some(name.to_owned()),
        lane: None,
        detail: Some("line\nnext".to_owned()),
        wait_reason: None,
        frame_id: Some(7),
        stayed_async: true,
        elapsed_ms: "20.000".to_owned(),
        budget_ms: "10.000".to_owned(),
        load: "2.00".to_owned(),
        frame_budget_ms: "16.000".to_owned(),
        over_ms: "4.000".to_owned(),
        gpu_wait_ms: "0.000".to_owned(),
        progress_percent: "50.0".to_owned(),
    }
}

fn doc() -> ReportDoc {
    ReportDoc {
        reason: None,
        uptime_ms: "1.500".to_owned(),
        events_seen: 12,
        malformed_events: 0,
        worst: Some(WorstDoc {
            key: Some("a`b".to_owned()),
            total_ms: "9.000".to_owned(),
            share: "90.0".to_owned(),
            count: 3,
            max_load: "1.50".to_owned(),
            slow: 2,
            failed: 1,
            share_filled: 2,
            share_padded: " 90.0".to_owned(),
            load_filled: 32,
            load_padded: " 1.50".to_owned(),
        }),
        active_jobs: 0,
        completed_jobs_kept: 3,
        failed_jobs: 1,
        slow_or_over_budget_jobs: 2,
        total_elapsed_ms: "9.000".to_owned(),
        average_elapsed_ms: "3.000".to_owned(),
        max_elapsed_ms: "5.000".to_owned(),
        scheduled: FirstDoc { count: 3, share: Some("100.0".to_owned()) },
        blocked: FirstDoc { count: 1, share: Some("33.3".to_owned()) },
        polling: FirstDoc { count: 0, share: None },
        gpu_wait: FirstDoc { count: 0, share: None },
        frame_budget_exceeded: FirstDoc { count: 1, share: None },
        stayed_async: FirstDoc { count: 2, share: Some("66.7".to_owned()) },
        service_flush_mode: Some("async".to_owned()),
        shutdown_flush_mode: None,
        prefer_engine_threading: true,
        require_engine_threading: false,
        lock_policy: None,
        elapsed_percentiles: pct("3.000"),
        load_percentiles: pct("0.50"),
        category_chart: Some(vec![ChartDoc {
            label: Some("render".to_owned()),
            filled: 3,
            elapsed_ms: "  9.000".to_owned(),
            share: " 90.0".to_owned(),
        }]),
        offender_chart: Some(Vec::new()),
        lane_chart: None,
        offenders: (0..20).map(|k| agg(&format!("k{k}"))).collect(),
        methods: Vec::new(),
        budget_violations: vec![job("big|job")],
        frame_budget_violations: vec![job("f")],
        top_by_elapsed: Vec::new(),
        top_by_load: Vec::new(),
        categories: vec![agg("c")],
        sources: Vec::new(),
        active: Some(Vec::new()),
        diagnostics: Some(vec![
            DiagnosticDoc { level: Some("warn".to_owned()), code: None, message: Some("old".to_owned()) },
            DiagnosticDoc { level: None, code: Some("c2".to_owned()), message: Some("new".to_owned()) },
        ]),
    }
}

#[test]
fn markdown_report_lays_out_every_section() {
    let md = markdown_report(&doc());
    let lines: Vec<&str> = md.lines().collect();
    assert_eq!(lines[0], "# North Star Engine Profiler Report");
    assert!(lines.contains(&"- reason: `unknown`"));
    assert!(lines.contains(&"- events_seen: `12`"));
    assert!(lines.contains(&"**Worst offender:** `a\\`b` — 9.000 ms total, 90.0% of captured time, 3 calls, max load 1.50x, slow/over-budget 2, failed 1."));
    let full = "\u{2588}".repeat(32);
    assert!(lines.contains(&format!("max budget load      [{full}]  1.50x").as_str()));
    assert!(lines.contains(&"| `completed_jobs_kept` | `3` | сколько завершённых записей осталось в ring buffer |"));
    assert!(lines.contains(&"| `what was scheduled` | `3` | `-` | jobs that entered the visible scheduling path |"));
    assert!(lines.contains(&"| `what was blocked` | `1` | `33.3%` | jobs that reported blocked/waiting/dependency/residency/barrier state |"));
    assert!(lines.contains(&"| `shutdown_flush_mode` | `unknown` |"));
    assert!(lines.contains(&"| `load` | 0.50x | 0.50x | 0.50x | 0.50x |"));
    let chart = format!("render{} [{}{}]   9.000 ms  90.0%", " ".repeat(28), "\u{2588}".repeat(3), "\u{2591}".repeat(25));
    assert!(lines.contains(&chart.as_str()));
    let offender_rows = lines.iter().filter(|l| l.starts_with("| ") && l.contains("`cat\\|x`") && l.contains("| 1.50x |")).count();
    assert_eq!(offender_rows, 16);
    assert!(lines.contains(&"| 16 | `k15` | `-` | `cat\\|x` | 3 | 9.000 | 90.0% | 3.000 | 5.000 | 1.50x | 2 | 1 |"));
    assert!(lines.contains(&"| 1 | `completed` | `render` | `-` | `big\\|job` | 20.000 | 10.000 | 2.00x | line next |"));
    assert!(lines.contains(&"| 1 | 7 | `-` | `render` | `-` | `f` | 20.000 | 16.000 | 4.000 | 0.000 |  | `true` | line next |"));
    assert!(lines.contains(&"No active jobs at report flush time."));
    let diag = lines.iter().position(|l| *l == "## Diagnostics").unwrap();
    assert_eq!(lines[diag + 2], "- `info` `c2`: new");
    assert_eq!(lines[diag + 3], "- `warn` `diagnostic`: old");
    assert_eq!(lines.len(), diag + 4);
    assert!(md.ends_with("- `warn` `diagnostic`: old\n"));
}
