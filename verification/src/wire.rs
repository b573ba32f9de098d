//! Reading job events into their wire records: each field must be missing,
//! `null` or of its type; numbers the host measures are only type-checked.
use vstd::prelude::*;

use crate::envelope::{entry_views, moved, push_moved};
use crate::metadata::{is_object, meta_get, opt_view, MetaEntry, MetaValue, Metadata};
use crate::recorder::{
    number_field, number_field_ok, opt_str_field, opt_u64_field, str_field, u64_field,
    JobBeginWire, JobEndWire, JobStatusWire,
};

verus! {

/// The sub-document at `p`, re-rooted; none where it is missing or `null`.
pub open spec fn sub_doc(es: Seq<MetaEntry>, p: Seq<char>) -> Option<Seq<(Seq<char>, MetaValue)>> {
    match meta_get(es, p) {
        None => None,
        Some(MetaValue::Null) => None,
        Some(_) => Some(moved(entry_views(es), p, Seq::empty())),
    }
}

/// An optional document matches a sub-document.
pub open spec fn doc_is(m: Option<Metadata>, d: Option<Seq<(Seq<char>, MetaValue)>>) -> bool {
    match m {
        Some(x) => d == Some(entry_views(x.entries@)),
        None => d is None,
    }
}

/// The sub-document at `p`.
fn sub_document(value: &Metadata, p: &str) -> (r: Option<Metadata>)
    ensures
        doc_is(r, sub_doc(value.entries@, p@)),
{
    match value.get(p) {
        None => None,
        Some(MetaValue::Null) => None,
        Some(_) => {
            let mut out: Vec<MetaEntry> = Vec::new();
            assert(entry_views(out@) =~= Seq::<(Seq<char>, MetaValue)>::empty());
            push_moved(&mut out, value, p, "");
            proof {
                reveal_strlit("");
            }
            assert(""@ =~= Seq::<char>::empty());
            assert(Seq::<(Seq<char>, MetaValue)>::empty() + moved(entry_views(value.entries@), p@, ""@)
                =~= moved(entry_views(value.entries@), p@, ""@));
            Some(Metadata { entries: out })
        },
    }
}

/// A string field of the event.
pub open spec fn text_field(es: Seq<MetaEntry>, p: Seq<char>) -> Option<Option<Seq<char>>> {
    opt_str_field(meta_get(es, p))
}

/// The begin event's fields have their types.
pub open spec fn begin_wire_ok(es: Seq<MetaEntry>) -> bool {
    &&& is_object(es)
    &&& text_field(es, "/id"@) is Some
    &&& text_field(es, "/name"@) is Some
    &&& text_field(es, "/label"@) is Some
    &&& text_field(es, "/category"@) is Some
    &&& text_field(es, "/source"@) is Some
    &&& text_field(es, "/detail"@) is Some
    &&& number_field_ok(meta_get(es, "/budget_ms"@))
    &&& opt_u64_field(meta_get(es, "/payload_bytes"@)) is Some
    &&& text_field(es, "/lane"@) is Some
    &&& text_field(es, "/priority"@) is Some
    &&& text_field(es, "/dependency_group"@) is Some
    &&& opt_u64_field(meta_get(es, "/frame_id"@)) is Some
    &&& number_field_ok(meta_get(es, "/frame_budget_ms"@))
    &&& number_field_ok(meta_get(es, "/gpu_wait_ms"@))
    &&& text_field(es, "/wait_reason"@) is Some
    &&& text_field(es, "/async_mode"@) is Some
}

/// The begin event read from the document.
pub open spec fn begin_wire_of(w: JobBeginWire, es: Seq<MetaEntry>) -> bool {
    &&& text_field(es, "/id"@) == Some(opt_view(w.id))
    &&& text_field(es, "/name"@) == Some(opt_view(w.name))
    &&& text_field(es, "/label"@) == Some(opt_view(w.label))
    &&& text_field(es, "/category"@) == Some(opt_view(w.category))
    &&& text_field(es, "/source"@) == Some(opt_view(w.source))
    &&& text_field(es, "/detail"@) == Some(opt_view(w.detail))
    &&& opt_u64_field(meta_get(es, "/payload_bytes"@)) == Some(w.payload_bytes)
    &&& doc_is(w.metadata, sub_doc(es, "/metadata"@))
    &&& text_field(es, "/lane"@) == Some(opt_view(w.lane))
    &&& text_field(es, "/priority"@) == Some(opt_view(w.priority))
    &&& text_field(es, "/dependency_group"@) == Some(opt_view(w.dependency_group))
    &&& opt_u64_field(meta_get(es, "/frame_id"@)) == Some(w.frame_id)
    &&& text_field(es, "/wait_reason"@) == Some(opt_view(w.wait_reason))
    &&& text_field(es, "/async_mode"@) == Some(opt_view(w.async_mode))
}

/// The end and status events' shared fields have their types.
pub open spec fn labels_ok(es: Seq<MetaEntry>) -> bool {
    &&& text_field(es, "/lane"@) is Some
    &&& text_field(es, "/priority"@) is Some
    &&& text_field(es, "/dependency_group"@) is Some
    &&& opt_u64_field(meta_get(es, "/frame_id"@)) is Some
    &&& number_field_ok(meta_get(es, "/frame_budget_ms"@))
    &&& number_field_ok(meta_get(es, "/gpu_wait_ms"@))
    &&& text_field(es, "/wait_reason"@) is Some
    &&& text_field(es, "/async_mode"@) is Some
}

/// The end event's fields have their types; its `id` is a string.
pub open spec fn end_wire_ok(es: Seq<MetaEntry>) -> bool {
    &&& is_object(es)
    &&& meta_get(es, "/id"@) matches Some(MetaValue::Str(_))
    &&& text_field(es, "/status"@) is Some
    &&& text_field(es, "/detail"@) is Some
    &&& text_field(es, "/error"@) is Some
    &&& opt_u64_field(meta_get(es, "/output_bytes"@)) is Some
    &&& labels_ok(es)
}

/// The end event read from the document.
pub open spec fn end_wire_of(w: JobEndWire, es: Seq<MetaEntry>) -> bool {
    &&& text_field(es, "/id"@) == Some(Some(w.id@))
    &&& text_field(es, "/status"@) == Some(opt_view(w.status))
    &&& text_field(es, "/detail"@) == Some(opt_view(w.detail))
    &&& text_field(es, "/error"@) == Some(opt_view(w.error))
    &&& opt_u64_field(meta_get(es, "/output_bytes"@)) == Some(w.output_bytes)
    &&& doc_is(w.metadata, sub_doc(es, "/metadata"@))
    &&& text_field(es, "/lane"@) == Some(opt_view(w.lane))
    &&& text_field(es, "/priority"@) == Some(opt_view(w.priority))
    &&& text_field(es, "/dependency_group"@) == Some(opt_view(w.dependency_group))
    &&& opt_u64_field(meta_get(es, "/frame_id"@)) == Some(w.frame_id)
    &&& text_field(es, "/wait_reason"@) == Some(opt_view(w.wait_reason))
    &&& text_field(es, "/async_mode"@) == Some(opt_view(w.async_mode))
}

/// The status event's fields have their types; its `id` is a string.
pub open spec fn status_wire_ok(es: Seq<MetaEntry>) -> bool {
    &&& is_object(es)
    &&& meta_get(es, "/id"@) matches Some(MetaValue::Str(_))
    &&& text_field(es, "/phase"@) is Some
    &&& text_field(es, "/kind"@) is Some
    &&& text_field(es, "/label"@) is Some
    &&& text_field(es, "/detail"@) is Some
    &&& number_field_ok(meta_get(es, "/budget_ms"@))
    &&& opt_u64_field(meta_get(es, "/current"@)) is Some
    &&& opt_u64_field(meta_get(es, "/total"@)) is Some
    &&& labels_ok(es)
}

/// The status event read from the document.
pub open spec fn status_wire_of(w: JobStatusWire, es: Seq<MetaEntry>) -> bool {
    &&& text_field(es, "/id"@) == Some(Some(w.id@))
    &&& text_field(es, "/phase"@) == Some(opt_view(w.phase))
    &&& text_field(es, "/kind"@) == Some(opt_view(w.kind))
    &&& text_field(es, "/label"@) == Some(opt_view(w.label))
    &&& text_field(es, "/detail"@) == Some(opt_view(w.detail))
    &&& doc_is(w.metadata, sub_doc(es, "/metadata"@))
    &&& text_field(es, "/lane"@) == Some(opt_view(w.lane))
    &&& text_field(es, "/priority"@) == Some(opt_view(w.priority))
    &&& text_field(es, "/dependency_group"@) == Some(opt_view(w.dependency_group))
    &&& opt_u64_field(meta_get(es, "/frame_id"@)) == Some(w.frame_id)
    &&& text_field(es, "/wait_reason"@) == Some(opt_view(w.wait_reason))
    &&& text_field(es, "/async_mode"@) == Some(opt_view(w.async_mode))
}

/// Whether the document is an object.
fn object_root(value: &Metadata) -> (r: bool)
    ensures
        r == is_object(value.entries@),
{
    let root: Vec<char> = Vec::new();
    match value.find(root.as_slice()) {
        Some(i) => match &value.entries[i].value {
            MetaValue::Object => true,
            _ => false,
        },
        None => false,
    }
}

/// A string field, or the error naming it.
fn text_of(value: &Metadata, p: &str, name: &str) -> (r: Result<Option<String>, String>)
    ensures
        match r {
            Ok(o) => text_field(value.entries@, p@) == Some(opt_view(o)),
            Err(_) => text_field(value.entries@, p@) is None,
        },
{
    match str_field(value.get(p)) {
        Ok(o) => Ok(o),
        Err(_) => Err(type_error(name)),
    }
}

/// An unsigned field, or the error naming it.
fn count_of(value: &Metadata, p: &str, name: &str) -> (r: Result<Option<u64>, String>)
    ensures
        match r {
            Ok(o) => opt_u64_field(meta_get(value.entries@, p@)) == Some(o),
            Err(_) => opt_u64_field(meta_get(value.entries@, p@)) is None,
        },
{
    match u64_field(value.get(p)) {
        Ok(o) => Ok(o),
        Err(_) => Err(type_error(name)),
    }
}

/// A number field's type, or the error naming it.
fn number_ok(value: &Metadata, p: &str, name: &str) -> (r: Result<(), String>)
    ensures
        r is Ok == number_field_ok(meta_get(value.entries@, p@)),
{
    if number_field(&value.get(p)) {
        Ok(())
    } else {
        Err(type_error(name))
    }
}

/// The message for a field of the wrong type.
pub open spec fn type_error_text(name: Seq<char>) -> Seq<char> {
    "invalid type for field `"@ + name + "`"@
}

/// The error for a field of the wrong type.
fn type_error(name: &str) -> (r: String)
    ensures
        r@ == type_error_text(name@),
{
    let mut s = String::new();
    crate::text::push_str(&mut s, "invalid type for field `");
    crate::text::push_str(&mut s, name);
    crate::text::push_str(&mut s, "`");
    s
}

/// Reads a job begin event. It fails where the event is no object or a
/// field has the wrong type.
pub fn parse_begin_wire(value: &Metadata) -> (r: Result<JobBeginWire, String>)
    ensures
        match r {
            Ok(w) => begin_wire_ok(value.entries@) && begin_wire_of(w, value.entries@),
            Err(_) => !begin_wire_ok(value.entries@),
        },
{
    if !object_root(value) {
        return Err("expected a JSON object".to_owned());
    }
    let id = text_of(value, "/id", "id")?;
    let name = text_of(value, "/name", "name")?;
    let label = text_of(value, "/label", "label")?;
    let category = text_of(value, "/category", "category")?;
    let source = text_of(value, "/source", "source")?;
    let detail = text_of(value, "/detail", "detail")?;
    number_ok(value, "/budget_ms", "budget_ms")?;
    let payload_bytes = count_of(value, "/payload_bytes", "payload_bytes")?;
    let lane = text_of(value, "/lane", "lane")?;
    let priority = text_of(value, "/priority", "priority")?;
    let dependency_group = text_of(value, "/dependency_group", "dependency_group")?;
    let frame_id = count_of(value, "/frame_id", "frame_id")?;
    number_ok(value, "/frame_budget_ms", "frame_budget_ms")?;
    number_ok(value, "/gpu_wait_ms", "gpu_wait_ms")?;
    let wait_reason = text_of(value, "/wait_reason", "wait_reason")?;
    let async_mode = text_of(value, "/async_mode", "async_mode")?;
    Ok(
        JobBeginWire {
            id,
            name,
            label,
            category,
            source,
            detail,
            payload_bytes,
            metadata: sub_document(value, "/metadata"),
            lane,
            priority,
            dependency_group,
            frame_id,
            wait_reason,
            async_mode,
        },
    )
}

/// The required string `id`, or the error.
fn required_id(value: &Metadata) -> (r: Result<String, String>)
    ensures
        match r {
            Ok(id) => meta_get(value.entries@, "/id"@) == Some(MetaValue::Str(id)),
            Err(_) => !(meta_get(value.entries@, "/id"@) matches Some(MetaValue::Str(_))),
        },
{
    match value.get("/id") {
        Some(MetaValue::Str(s)) => Ok(s),
        None => Err("missing field `id`".to_owned()),
        Some(_) => Err(type_error("id")),
    }
}

/// Reads a job end event. It fails where the event is no object, has no
/// string `id`, or a field has the wrong type.
pub fn parse_end_wire(value: &Metadata) -> (r: Result<JobEndWire, String>)
    ensures
        match r {
            Ok(w) => end_wire_ok(value.entries@) && end_wire_of(w, value.entries@),
            Err(_) => !end_wire_ok(value.entries@),
        },
{
    if !object_root(value) {
        return Err("expected a JSON object".to_owned());
    }
    let id = required_id(value)?;
    let status = text_of(value, "/status", "status")?;
    let detail = text_of(value, "/detail", "detail")?;
    let error = text_of(value, "/error", "error")?;
    let output_bytes = count_of(value, "/output_bytes", "output_bytes")?;
    let lane = text_of(value, "/lane", "lane")?;
    let priority = text_of(value, "/priority", "priority")?;
    let dependency_group = text_of(value, "/dependency_group", "dependency_group")?;
    let frame_id = count_of(value, "/frame_id", "frame_id")?;
    number_ok(value, "/frame_budget_ms", "frame_budget_ms")?;
    number_ok(value, "/gpu_wait_ms", "gpu_wait_ms")?;
    let wait_reason = text_of(value, "/wait_reason", "wait_reason")?;
    let async_mode = text_of(value, "/async_mode", "async_mode")?;
    Ok(
        JobEndWire {
            id,
            status,
            detail,
            error,
            output_bytes,
            metadata: sub_document(value, "/metadata"),
            lane,
            priority,
            dependency_group,
            frame_id,
            wait_reason,
            async_mode,
        },
    )
}

/// Reads a task status event. It fails where the event is no object, has
/// no string `id`, or a field has the wrong type.
pub fn parse_status_wire(value: &Metadata) -> (r: Result<JobStatusWire, String>)
    ensures
        match r {
            Ok(w) => status_wire_ok(value.entries@) && status_wire_of(w, value.entries@),
            Err(_) => !status_wire_ok(value.entries@),
        },
{
    if !object_root(value) {
        return Err("expected a JSON object".to_owned());
    }
    let id = required_id(value)?;
    let phase = text_of(value, "/phase", "phase")?;
    let kind = text_of(value, "/kind", "kind")?;
    let label = text_of(value, "/label", "label")?;
    let detail = text_of(value, "/detail", "detail")?;
    number_ok(value, "/budget_ms", "budget_ms")?;
    count_of(value, "/current", "current")?;
    count_of(value, "/total", "total")?;
    let lane = text_of(value, "/lane", "lane")?;
    let priority = text_of(value, "/priority", "priority")?;
    let dependency_group = text_of(value, "/dependency_group", "dependency_group")?;
    let frame_id = count_of(value, "/frame_id", "frame_id")?;
    number_ok(value, "/frame_budget_ms", "frame_budget_ms")?;
    number_ok(value, "/gpu_wait_ms", "gpu_wait_ms")?;
    let wait_reason = text_of(value, "/wait_reason", "wait_reason")?;
    let async_mode = text_of(value, "/async_mode", "async_mode")?;
    Ok(
        JobStatusWire {
            id,
            phase,
            kind,
            label,
            detail,
            metadata: sub_document(value, "/metadata"),
            lane,
            priority,
            dependency_group,
            frame_id,
            wait_reason,
            async_mode,
        },
    )
}

} // verus!
