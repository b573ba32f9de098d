use newengine_profiler_plugin::archive::{
    civil_from_days, crc32, dos_time_date, stored_zip, utc_stamp_from_unix_ms, utc_time,
    ArchiveMember,
};
use newengine_profiler_plugin::csv::{csv_escape, csv_header, csv_push, rank};
use newengine_profiler_plugin::flush::{
    is_shutdown_report_reason, AsyncFlushPlan, FlushRoute, SchedulerReply,
};
use newengine_profiler_plugin::markdown::{escape_md, shorten};
use newengine_profiler_plugin::metadata::{MetaValue, Metadata};
use newengine_profiler_plugin::output::{
    csv_within_limit, plan_report_files, safe_archive_prefix, ArchiveSource, ReportOutputConfig,
};
use newengine_profiler_plugin::records::{
    CaptureConfig, DiagnosticsConfig, FlushRequestRecord, ProfilerConfig, ProfilerRuntime,
    ProfilerState, SchedulingConfig,
};
use newengine_profiler_plugin::report::FlushStart;

fn runtime(mode: &str, prefer: bool, require: bool) -> ProfilerRuntime {
    ProfilerRuntime::new(ProfilerConfig {
        enabled: true,
        ignore_self: true,
        capture: CaptureConfig {
            service_calls: true,
            plugin_lifecycle: true,
            task_status_events: true,
            custom_events: true,
        },
        diagnostics: DiagnosticsConfig {
            max_recent_jobs: 16,
            max_recent_diagnostics: 4,
        },
        scheduling: SchedulingConfig {
            service_flush_mode: mode.to_owned(),
            prefer_engine_jobs: prefer,
            require_engine_jobs: require,
        },
    })
}

fn output_config(write_archive: bool, include_latest: bool) -> ReportOutputConfig {
    ReportOutputConfig {
        archive_prefix: " North Star/run.. ".to_owned(),
        write_json: true,
        write_markdown: true,
        write_csv: true,
        write_archive,
        include_latest_in_archive: include_latest,
        latest_json: "latest.json".to_owned(),
        latest_markdown: "latest.md".to_owned(),
        latest_csv: (0..12).map(|k| format!("latest_{k}.csv")).collect(),
    }
}

fn le32_at(bytes: &[u8], at: usize) -> u32 {
    u32::from_le_bytes([bytes[at], bytes[at + 1], bytes[at + 2], bytes[at + 3]])
}

fn le16_at(bytes: &[u8], at: usize) -> u16 {
    u16::from_le_bytes([bytes[at], bytes[at + 1]])
}

#[test]
fn csv_cells_are_quoted_only_where_needed() {
    assert_eq!(csv_escape("plain"), "plain");
    assert_eq!(csv_escape("a,b"), "\"a,b\"");
    assert_eq!(csv_escape("say \"hi\""), "\"say \"\"hi\"\"\"");
    assert_eq!(csv_escape("two\nlines"), "\"two\nlines\"");
    assert_eq!(csv_escape(""), "");
}

#[test]
fn csv_header_and_rows_end_with_newlines() {
    assert_eq!(csv_header(&["id", "name", "ms"]), "id,name,ms\n");
    let mut out = csv_header(&["a"]);
    csv_push(&mut out, &["x,y".to_owned(), "".to_owned(), "z".to_owned()]);
    assert_eq!(out, "a\n\"x,y\",,z\n");
}

#[test]
fn ranks_are_one_based() {
    assert_eq!(rank(0), "1");
    assert_eq!(rank(41), "42");
}

#[test]
fn chart_labels_are_shortened_with_an_ellipsis() {
    assert_eq!(shorten("abcdef", 4), "abc\u{2026}");
    assert_eq!(shorten("abc", 4), "abc");
    assert_eq!(shorten("abcd", 4), "abc\u{2026}");
    assert_eq!(shorten("ab", 0), "\u{2026}");
}

#[test]
fn markdown_text_is_escaped() {
    assert_eq!(escape_md("a|b`c\\d"), "a\\|b\\`c\\\\d");
    assert_eq!(escape_md("line\r\nnext"), "line  next");
    assert_eq!(escape_md("plain"), "plain");
}

#[test]
fn archive_prefixes_are_file_name_safe() {
    assert_eq!(safe_archive_prefix("  my report!  "), "my_report");
    assert_eq!(safe_archive_prefix("..run-1.."), "run-1");
    assert_eq!(safe_archive_prefix("___"), "profiler_report");
    assert_eq!(safe_archive_prefix(""), "profiler_report");
}

#[test]
fn report_files_are_named_after_the_stamp() {
    let cfg = output_config(true, false);
    let plan = plan_report_files(&cfg, "20240102T030405006Z");
    assert_eq!(plan.archive_name, "North_Star_run_20240102T030405006Z.zip");
    assert_eq!(plan.json_entry_name, "profiler_report_20240102T030405006Z.json");
    assert_eq!(plan.markdown_entry_name, "profiler_report_20240102T030405006Z.md");
    assert_eq!(plan.csv.len(), 12);
    assert_eq!(plan.csv[0].kind, "jobs");
    assert_eq!(plan.csv[0].timestamped_name, "profiler_jobs_20240102T030405006Z.csv");
    assert_eq!(plan.csv[10].timestamped_name, "profiler_first_20240102T030405006Z.csv");
    assert_eq!(plan.csv[11].kind, "frame_budget");
    assert_eq!(plan.csv[11].latest_name, "latest_11.csv");
    assert_eq!(plan.archive_entries.len(), 1 + 1 + 1 + 12);
    assert_eq!(plan.archive_entries[0].name, "index.json");
    assert!(matches!(plan.archive_entries[0].source, ArchiveSource::Index));
    assert!(matches!(plan.archive_entries[1].source, ArchiveSource::Json));
    assert!(matches!(plan.archive_entries[14].source, ArchiveSource::Csv(11)));
}

#[test]
fn latest_files_are_duplicated_into_the_archive_when_asked() {
    let plan = plan_report_files(&output_config(true, true), "S");
    assert_eq!(plan.archive_entries.len(), 1 + 2 + 2 + 24);
    assert_eq!(plan.archive_entries[1].name, "profiler_report_S.json");
    assert_eq!(plan.archive_entries[2].name, "latest.json");
    assert_eq!(plan.archive_entries[4].name, "latest.md");
    assert_eq!(plan.archive_entries[6].name, "latest_0.csv");
    let none = plan_report_files(&output_config(false, true), "S");
    assert!(none.archive_entries.is_empty());
}

#[test]
fn csv_tables_have_a_size_limit() {
    assert!(csv_within_limit(0));
    assert!(csv_within_limit(100_000 * 1024 * 1024));
    assert!(!csv_within_limit(100_000 * 1024 * 1024 + 1));
}

#[test]
fn crc32_matches_the_standard_check_value() {
    assert_eq!(crc32(b"123456789"), 0xCBF4_3926);
    assert_eq!(crc32(b""), 0);
    assert_eq!(crc32(b"a"), 0xE8B7_BE43);
}

#[test]
fn calendar_dates_of_day_counts() {
    assert_eq!(civil_from_days(0), (1970, 1, 1));
    assert_eq!(civil_from_days(58), (1970, 2, 28));
    assert_eq!(civil_from_days(11_016), (2000, 2, 29));
    assert_eq!(civil_from_days(11_017), (2000, 3, 1));
    assert_eq!(civil_from_days(19_782), (2024, 2, 29));
    assert_eq!(civil_from_days(19_723), (2024, 1, 1));
}

#[test]
fn utc_stamps_name_report_files() {
    assert_eq!(utc_stamp_from_unix_ms(0), "19700101T000000000Z");
    assert_eq!(utc_stamp_from_unix_ms(1_700_000_000_123), "20231114T221320123Z");
    let t = utc_time(1_704_164_645_006);
    assert_eq!((t.year, t.month, t.day), (2024, 1, 2));
    assert_eq!((t.hour, t.minute, t.second, t.millis), (3, 4, 5, 6));
}

#[test]
fn dos_fields_clamp_the_year_and_halve_seconds() {
    assert_eq!(dos_time_date(0), (0, 33));
    // 2024-01-02 03:04:05
    assert_eq!(dos_time_date(1_704_164_645_006), (3 * 2048 + 4 * 32 + 2, 44 * 512 + 32 + 2));
}

#[test]
fn empty_archive_is_an_end_record() {
    let bytes = stored_zip(&[], 0, 33).unwrap();
    assert_eq!(bytes.len(), 22);
    assert_eq!(le32_at(&bytes, 0), 0x0605_4b50);
    assert_eq!(le16_at(&bytes, 8), 0);
}

#[test]
fn stored_members_carry_checksums_and_offsets() {
    let members = vec![
        ArchiveMember {
            name: b"a.txt".to_vec(),
            bytes: b"123456789".to_vec(),
        },
        ArchiveMember {
            name: b"b".to_vec(),
            bytes: Vec::new(),
        },
    ];
    let bytes = stored_zip(&members, 0x1234, 0x5678).unwrap();
    let first_len = 30 + 5 + 9;
    let second_len = 30 + 1;
    let central_len = (46 + 5) + (46 + 1);
    assert_eq!(bytes.len(), first_len + second_len + central_len + 22);
    assert_eq!(le32_at(&bytes, 0), 0x0403_4b50);
    assert_eq!(le16_at(&bytes, 10), 0x1234);
    assert_eq!(le16_at(&bytes, 12), 0x5678);
    assert_eq!(le32_at(&bytes, 14), 0xCBF4_3926);
    assert_eq!(le32_at(&bytes, 18), 9);
    assert_eq!(&bytes[30..35], b"a.txt");
    assert_eq!(&bytes[35..44], b"123456789");
    let central = first_len + second_len;
    assert_eq!(le32_at(&bytes, central), 0x0201_4b50);
    let second_central = central + 46 + 5;
    assert_eq!(le32_at(&bytes, second_central + 42), first_len as u32);
    let end = central + central_len;
    assert_eq!(le16_at(&bytes, end + 10), 2);
    assert_eq!(le32_at(&bytes, end + 12), central_len as u32);
    assert_eq!(le32_at(&bytes, end + 16), central as u32);
}

#[test]
fn oversized_names_do_not_fit_the_archive() {
    let members = vec![ArchiveMember {
        name: vec![b'x'; 0x1_0000],
        bytes: Vec::new(),
    }];
    assert!(stored_zip(&members, 0, 0).is_none());
}

#[test]
fn shutdown_report_is_written_once() {
    let rt = runtime("async", true, true);
    let mut state: ProfilerState<()> = ProfilerState::new();
    assert!(is_shutdown_report_reason("plugin.shutdown"));
    assert!(!is_shutdown_report_reason("manual"));
    assert!(matches!(rt.begin_report_flush(&mut state, "plugin.shutdown"), FlushStart::Started));
    assert_eq!(state.reports_in_progress, 1);
    rt.finish_report_flush(&mut state, "plugin.shutdown", Ok(()), "1.500", 7);
    assert_eq!(state.reports_in_progress, 0);
    assert_eq!(state.reports_written, 1);
    assert!(state.shutdown_report_written);
    assert_eq!(state.diagnostics.len(), 1);
    assert_eq!(state.diagnostics[0].code, "profiler_report_flushed");
    assert_eq!(
        state.diagnostics[0].message,
        "profiler report flushed reason='plugin.shutdown' elapsed_ms=1.500 policy='snapshot_then_write_outside_lock'"
    );
    assert!(matches!(
        rt.begin_report_flush(&mut state, "service.shutdown_v1"),
        FlushStart::SkippedDuplicateShutdown
    ));
    assert_eq!(state.reports_in_progress, 0);
    assert!(matches!(rt.begin_report_flush(&mut state, "manual"), FlushStart::Started));
}

#[test]
fn failed_flush_is_counted_with_its_error() {
    let rt = runtime("async", true, true);
    let mut state: ProfilerState<()> = ProfilerState::new();
    assert!(matches!(rt.begin_report_flush(&mut state, "plugin.shutdown"), FlushStart::Started));
    rt.finish_report_flush(&mut state, "plugin.shutdown", Err("disk full".to_owned()), "2.000", 9);
    assert_eq!(state.reports_failed, 1);
    assert_eq!(state.reports_written, 0);
    assert!(!state.shutdown_report_written);
    assert_eq!(state.diagnostics[0].level, "error");
    assert_eq!(
        state.diagnostics[0].message,
        "profiler report flush failed reason='plugin.shutdown' elapsed_ms=2.000: disk full"
    );
}

#[test]
fn service_flush_mode_is_read_case_insensitively() {
    assert!(matches!(runtime("SYNC", true, true).flush_report_service(), FlushRoute::Sync));
    assert!(matches!(runtime("async", true, true).flush_report_service(), FlushRoute::Async));
    assert!(matches!(runtime("syncx", true, true).flush_report_service(), FlushRoute::Async));
}

fn record(id: &str, status: &str, error: Option<&str>) -> FlushRequestRecord {
    ProfilerRuntime::flush_request_record(
        id,
        &format!("{id}.job"),
        "manual",
        "mode".to_owned(),
        status,
        1,
        None,
        None,
        error.map(|e| e.to_owned()),
    )
}

#[test]
fn flush_requests_are_replaced_by_id_and_counted_once() {
    let rt = runtime("async", true, true);
    let mut state: ProfilerState<()> = ProfilerState::new();
    rt.record_flush_request(&mut state, record("r1", "scheduling", None), 1);
    rt.record_flush_request(&mut state, record("r1", "scheduled", None), 2);
    rt.record_flush_request(&mut state, record("r1", "scheduled", None), 3);
    assert_eq!(state.flush_requests.len(), 1);
    assert_eq!(state.flush_requests[0].status, "scheduled");
    assert_eq!(state.reports_scheduled, 1);
    rt.record_flush_request(&mut state, record("r2", "failed", Some("boom")), 4);
    assert_eq!(state.flush_requests.len(), 2);
    assert_eq!(state.reports_failed, 1);
    assert_eq!(state.diagnostics.len(), 1);
    assert_eq!(
        state.diagnostics[0].message,
        "profiler report flush request 'r2' status='failed': boom"
    );
}

#[test]
fn late_scheduled_status_keeps_a_finished_request() {
    let rt = runtime("async", true, true);
    let mut state: ProfilerState<()> = ProfilerState::new();
    rt.record_flush_request(&mut state, record("r1", "completed", None), 1);
    rt.record_flush_request(&mut state, record("r1", "scheduled", None), 2);
    assert_eq!(state.flush_requests.len(), 1);
    assert_eq!(state.flush_requests[0].status, "completed");
}

#[test]
fn async_flush_without_scheduler_is_rejected() {
    let rt = runtime("async", true, true);
    let mut state: ProfilerState<()> = ProfilerState::new();
    let (plan, decided) = rt.begin_async_flush(&mut state, "manual", false, 5);
    assert_eq!(plan.request_id, "local-1");
    assert_eq!(plan.job_id, "local-1.engine-jobs-flush");
    assert_eq!(plan.job_reason, "manual.engine_threading");
    let result = decided.expect("no scheduler decides at once");
    assert!(!result.accepted);
    assert_eq!(result.mode, "engine_threading_required");
    assert_eq!(
        result.error.as_deref(),
        Some("engine.threading scheduler is unavailable; profiler-owned background fallback is not allowed")
    );
    assert_eq!(state.flush_requests.back().unwrap().status, "rejected");

    let rt = runtime("async", false, false);
    let (_, decided) = rt.begin_async_flush(&mut state, "manual", true, 6);
    assert_eq!(
        decided.unwrap().error.as_deref(),
        Some("async profiler flush requires engine.threading; no profiler-owned background fallback is allowed")
    );
}

fn reply(accepted: Option<bool>, detail: Option<&str>) -> SchedulerReply {
    let mut response = Metadata::new();
    response.push("", MetaValue::Object);
    if let Some(a) = accepted {
        response.push("/accepted", MetaValue::Bool(a));
    }
    if let Some(d) = detail {
        response.push("/detail", MetaValue::Str(d.to_owned()));
    }
    SchedulerReply {
        response,
        response_json: "{}".to_owned(),
    }
}

fn planned(rt: &ProfilerRuntime, state: &mut ProfilerState<()>) -> AsyncFlushPlan {
    let (plan, decided) = rt.begin_async_flush(state, "manual", true, 5);
    assert!(decided.is_none());
    plan
}

#[test]
fn async_flush_is_settled_by_the_scheduler_reply() {
    let rt = runtime("async", true, true);
    let mut state: ProfilerState<()> = ProfilerState::new();
    let plan = planned(&rt, &mut state);
    let result = rt.settle_async_flush(&mut state, &plan, Ok(reply(None, None)), 6);
    assert!(result.accepted);
    assert_eq!(result.mode, "engine_threading");
    assert_eq!(state.flush_requests.back().unwrap().status, "scheduled");
    assert_eq!(state.reports_scheduled, 1);

    let plan = planned(&rt, &mut state);
    let result = rt.settle_async_flush(&mut state, &plan, Ok(reply(Some(false), Some("busy"))), 7);
    assert!(!result.accepted);
    let last = state.flush_requests.back().unwrap();
    assert_eq!(last.status, "rejected");
    assert_eq!(last.error.as_deref(), Some("busy"));

    let plan = planned(&rt, &mut state);
    let result = rt.settle_async_flush(&mut state, &plan, Err("queue closed".to_owned()), 8);
    assert!(!result.accepted);
    assert_eq!(result.mode, "engine_threading_required");
    assert_eq!(result.error.as_deref(), Some("queue closed"));
}

#[test]
fn finished_requests_are_marked_by_id() {
    let rt = runtime("async", true, true);
    let mut state: ProfilerState<()> = ProfilerState::new();
    rt.record_flush_request(&mut state, record("r1", "scheduled", None), 1);
    rt.record_flush_request(&mut state, record("r2", "scheduled", None), 2);
    rt.mark_flush_request_completed(&mut state, "r1", None, 10);
    assert_eq!(state.flush_requests[0].status, "completed");
    assert_eq!(state.flush_requests[0].completed_unix_ms, Some(10));
    assert_eq!(state.flush_requests[1].status, "scheduled");
    rt.mark_flush_request_completed(&mut state, "r2", Some("io".to_owned()), 11);
    assert_eq!(state.flush_requests[1].status, "failed");
    assert_eq!(state.flush_requests[1].error.as_deref(), Some("io"));
    assert_eq!(state.reports_failed, 1);
    rt.mark_flush_request_completed(&mut state, "r3", None, 12);
    assert_eq!(state.flush_requests.len(), 2);
    assert_eq!(state.reports_failed, 1);
}
