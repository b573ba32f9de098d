use newengine_profiler_plugin::envelope::engine_job_envelope_to_profiler_event;
use newengine_profiler_plugin::metadata::{merge_metadata, number_u64_value_at, text_value_at, MetaValue, Metadata};
use newengine_profiler_plugin::parsing::{
    first_value_ms_text, frame_budget_ms_text, gpu_wait_ms_text, parse_breakdown_parts,
    parse_first_ms_from_text,
};
use newengine_profiler_plugin::recorder::event_elapsed_ms;
use newengine_profiler_plugin::wire::{parse_begin_wire, parse_status_wire};
use serde_json::Value;

fn flatten(v: &Value, pointer: String, out: &mut Metadata) {
    match v {
        Value::Null => out.push(&pointer, MetaValue::Null),
        Value::Bool(b) => out.push(&pointer, MetaValue::Bool(*b)),
        Value::Number(n) => out.push(&pointer, MetaValue::Number(n.to_string())),
        Value::String(s) => out.push(&pointer, MetaValue::Str(s.clone())),
        Value::Array(items) => {
            out.push(&pointer, MetaValue::Array);
            for (i, x) in items.iter().enumerate() {
                flatten(x, format!("{pointer}/{i}"), out);
            }
        }
        Value::Object(map) => {
            out.push(&pointer, MetaValue::Object);
            for (k, x) in map {
                let key = k.replace('~', "~0").replace('/', "~1");
                flatten(x, format!("{pointer}/{key}"), out);
            }
        }
    }
}

fn meta(text: &str) -> Metadata {
    let v: Value = serde_json::from_str(text).unwrap();
    let mut m = Metadata::new();
    flatten(&v, String::new(), &mut m);
    m
}

fn ms(text: &str) -> Option<f64> {
    parse_first_ms_from_text(text).map(|t| t.parse::<f64>().unwrap())
}

#[test]
fn duration_parser_reads_first_millisecond_pair_without_token_vector() {
    assert_eq!(ms("load took 12.5 ms total"), Some(12.5));
    assert_eq!(ms("gpu 7 milliseconds blocked"), Some(7.0));
    assert_eq!(ms("no duration"), None);
}

#[test]
fn breakdown_parser_keeps_valid_non_negative_parts() {
    let parts: Vec<(String, f64)> = parse_breakdown_parts("decode=1.5ms upload=2ms ignored broken=x")
        .into_iter()
        .map(|(name, text)| (name, text.parse::<f64>().unwrap().max(0.0)))
        .collect();
    assert_eq!(parts, vec![("decode".to_owned(), 1.5), ("upload".to_owned(), 2.0)]);
}

#[test]
fn duration_parser_skips_unparsable_numbers_and_leading_units() {
    assert_eq!(ms("about ~x ms then (4.25ms) later"), None);
    assert_eq!(ms("about x ms then 4.25 msec later"), Some(4.25));
    assert_eq!(ms("ms first 3 ms"), None);
    assert_eq!(ms("took -2 MS"), Some(-2.0));
}

#[test]
fn breakdown_parser_keeps_blank_named_parts_out() {
    let parts = parse_breakdown_parts(" =3ms a=1e2 b=inf c= d=.5ms");
    let names: Vec<&str> = parts.iter().map(|(n, _)| n.as_str()).collect();
    assert_eq!(names, vec!["a", "b", "d"]);
    assert_eq!(parts[0].1, "1e2");
    assert_eq!(parts[2].1, ".5");
}

#[test]
fn elapsed_time_prefers_duration_fields() {
    assert_eq!(event_elapsed_ms(&meta("{\"duration_ms\":\" 4.5 \",\"detail\":\"9 ms\"}")), Some("4.5".to_owned()));
    assert_eq!(event_elapsed_ms(&meta("{\"metadata\":{\"total_ms\":8}}")), Some("8".to_owned()));
    assert_eq!(event_elapsed_ms(&meta("{\"message\":\"took 2 ms\"}")), Some("2".to_owned()));
    assert_eq!(event_elapsed_ms(&meta("{\"detail\":5,\"message\":\"took 2 ms\"}")), None);
}

#[test]
fn metadata_merge_replaces_top_level_fields() {
    let merged = merge_metadata(meta("{\"a\":1,\"b\":{\"c\":2}}"), meta("{\"b\":3}"));
    assert_eq!(number_u64_value_at(&merged, "/a"), Some(1));
    assert_eq!(number_u64_value_at(&merged, "/b"), Some(3));
    assert!(merged.get("/b/c").is_none());
    let kept = merge_metadata(meta("{\"a\":1}"), meta("null"));
    assert_eq!(number_u64_value_at(&kept, "/a"), Some(1));
    let replaced = merge_metadata(meta("{\"a\":1}"), meta("[1]"));
    assert!(replaced.get("/a").is_none());
    assert!(matches!(replaced.get(""), Some(MetaValue::Array)));
}

#[test]
fn envelope_event_is_stamped_with_its_origin() {
    let event = engine_job_envelope_to_profiler_event(meta(
        "{\"schema\":\"engine.job.v1\",\"semantic_owner\":\"assets\",\"executor\":{\"pool\":\"io\"},\
         \"event\":{\"task_id\":\"t1\",\"job_envelope\":{\"stale\":true}}}",
    ));
    assert_eq!(text_value_at(&event, "/task_id"), Some("t1".to_owned()));
    assert_eq!(text_value_at(&event, "/job_envelope/schema"), Some("engine.job.v1".to_owned()));
    assert_eq!(text_value_at(&event, "/job_envelope/executor/pool"), Some("io".to_owned()));
    assert!(matches!(event.get("/job_envelope/authority"), Some(MetaValue::Null)));
    assert!(event.get("/job_envelope/stale").is_none());
    assert_eq!(text_value_at(&event, "/owner"), Some("assets".to_owned()));
}

#[test]
fn envelope_without_event_is_kept() {
    let event = engine_job_envelope_to_profiler_event(meta("{\"task_id\":\"t2\"}"));
    assert_eq!(text_value_at(&event, "/task_id"), Some("t2".to_owned()));
    let scalar = engine_job_envelope_to_profiler_event(meta("{\"event\":5}"));
    assert_eq!(number_u64_value_at(&scalar, ""), Some(5));
}

#[test]
fn wires_check_their_field_types() {
    assert!(parse_begin_wire(&meta("{\"id\":\"a\",\"frame_id\":3}")).is_ok());
    assert!(parse_begin_wire(&meta("{\"id\":1}")).is_err());
    assert!(parse_begin_wire(&meta("[1]")).is_err());
    assert!(parse_begin_wire(&meta("{\"frame_id\":-3}")).is_err());
    assert!(parse_begin_wire(&meta("{\"budget_ms\":\"fast\"}")).is_err());
    let w = parse_begin_wire(&meta("{\"lane\":null,\"metadata\":{\"k\":\"v\"}}")).unwrap();
    assert_eq!(w.lane, None);
    assert_eq!(text_value_at(w.metadata.as_ref().unwrap(), "/k"), Some("v".to_owned()));
    assert_eq!(parse_status_wire(&meta("{}")).err(), Some("missing field `id`".to_owned()));
    assert_eq!(
        parse_status_wire(&meta("{\"id\":\"s\",\"total\":1.5}")).err(),
        Some("invalid type for field `total`".to_owned())
    );
}

#[test]
fn metadata_durations_are_numbers_or_numeric_strings() {
    let m = meta(r#"{"a": "soon", "b": " 2.5 ", "c": 7, "metadata": {"frame_budget_ms": 16.6}}"#);
    assert_eq!(first_value_ms_text(&m, &["/missing", "/a", "/b", "/c"]).as_deref(), Some("2.5"));
    assert_eq!(first_value_ms_text(&m, &["/c", "/b"]).as_deref(), Some("7"));
    assert_eq!(first_value_ms_text(&m, &["/a"]), None);
    assert_eq!(frame_budget_ms_text(&m).as_deref(), Some("16.6"));
    assert_eq!(gpu_wait_ms_text(&m), None);
    let g = meta(r#"{"waited_gpu_ms": "inf", "metadata": {"gpu_wait_ms": 3}}"#);
    assert_eq!(gpu_wait_ms_text(&g).as_deref(), Some("inf"));
}
