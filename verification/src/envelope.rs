//! Unwrapping engine job envelopes: the task event inside an envelope,
//! stamped with where it came from.
use vstd::prelude::*;

use crate::metadata::{meta_get, points_under, under, MetaEntry, MetaValue, Metadata};
use crate::text::{chars_of, push_chars, push_str, slice_range, string_of};

verus! {

/// An entry as its pointer text and value.
pub open spec fn entry_view(e: MetaEntry) -> (Seq<char>, MetaValue) {
    (e.pointer@, e.value)
}

/// The entries of a document as pointer texts and values.
pub open spec fn entry_views(es: Seq<MetaEntry>) -> Seq<(Seq<char>, MetaValue)> {
    es.map_values(|e: MetaEntry| entry_view(e))
}

/// The entries at or inside `from`, in order, moved to `to`.
pub open spec fn moved(es: Seq<(Seq<char>, MetaValue)>, from: Seq<char>, to: Seq<char>) -> Seq<
    (Seq<char>, MetaValue),
>
    decreases es.len(),
{
    if es.len() == 0 {
        Seq::empty()
    } else if under(es.last().0, from) {
        moved(es.drop_last(), from, to).push((to + es.last().0.skip(from.len() as int), es.last().1))
    } else {
        moved(es.drop_last(), from, to)
    }
}

/// The entries outside `field`, in order.
pub open spec fn outside(es: Seq<(Seq<char>, MetaValue)>, field: Seq<char>) -> Seq<
    (Seq<char>, MetaValue),
>
    decreases es.len(),
{
    if es.len() == 0 {
        Seq::empty()
    } else if under(es.last().0, field) {
        outside(es.drop_last(), field)
    } else {
        outside(es.drop_last(), field).push(es.last())
    }
}

/// The envelope field `key` copied under `/job_envelope`, `null` where the
/// envelope lacks it.
pub open spec fn stamp_field(env: Seq<MetaEntry>, key: Seq<char>) -> Seq<(Seq<char>, MetaValue)> {
    if meta_get(env, key) is Some {
        moved(entry_views(env), key, "/job_envelope"@ + key)
    } else {
        seq![("/job_envelope"@ + key, MetaValue::Null)]
    }
}

/// The task event that an engine job envelope carries, as the profiler
/// reads it: without an `event` the envelope itself; an `event` that is no
/// object as it is; otherwise the event, its `job_envelope` replaced by the
/// envelope's `schema`, `authority`, `executor` and `semantic_owner`, and
/// the envelope's `semantic_owner` as its `owner` where it names none.
pub open spec fn unwrapped(env: Seq<MetaEntry>) -> Seq<(Seq<char>, MetaValue)> {
    let ev = moved(entry_views(env), "/event"@, Seq::empty());
    if meta_get(env, "/event"@) is None {
        entry_views(env)
    } else if meta_get(env, "/event"@) != Some(MetaValue::Object) {
        ev
    } else {
        let has_owner = meta_get(env, "/event/owner"@) is Some;
        outside(ev, "/job_envelope"@) + seq![("/job_envelope"@, MetaValue::Object)]
            + stamp_field(env, "/schema"@) + stamp_field(env, "/authority"@) + stamp_field(
            env,
            "/executor"@,
        ) + stamp_field(env, "/semantic_owner"@) + (if !has_owner && meta_get(
            env,
            "/semantic_owner"@,
        ) is Some {
            moved(entry_views(env), "/semantic_owner"@, "/owner"@)
        } else {
            Seq::empty()
        })
    }
}

/// Appends the entries at or inside `from`, moved to `to`.
pub(crate) fn push_moved(out: &mut Vec<MetaEntry>, env: &Metadata, from: &str, to: &str)
    ensures
        entry_views(final(out)@) == entry_views(old(out)@) + moved(entry_views(env.entries@), from@, to@),
{
    let f = chars_of(from);
    let ghost es = entry_views(env.entries@);
    let ghost start = entry_views(out@);
    let mut i: usize = 0;
    while i < env.entries.len()
        invariant
            i <= env.entries@.len(),
            f@ == from@,
            es == entry_views(env.entries@),
            entry_views(out@) == start + moved(es.take(i as int), from@, to@),
        decreases env.entries@.len() - i,
    {
        let e = &env.entries[i];
        let p = chars_of(e.pointer.as_str());
        assert(es.take(i + 1).drop_last() =~= es.take(i as int));
        assert(es.take(i + 1).last() == entry_view(env.entries@[i as int]));
        if points_under(p.as_slice(), f.as_slice()) {
            let rest = slice_range(p.as_slice(), f.len(), p.len());
            assert(rest@ =~= p@.skip(f@.len() as int));
            let mut np = String::new();
            push_str(&mut np, to);
            push_chars(&mut np, rest.as_slice());
            let ghost before = entry_views(out@);
            out.push(MetaEntry { pointer: np, value: e.value.duplicate() });
            assert(entry_views(out@) =~= before.push((to@ + p@.skip(f@.len() as int), e.value)));
        }
        i += 1;
    }
    assert(es.take(env.entries@.len() as int) =~= es);
}

/// Appends the envelope field `key` under `/job_envelope`.
fn push_stamp(out: &mut Vec<MetaEntry>, env: &Metadata, key: &str, target: &str)
    requires
        target@ == "/job_envelope"@ + key@,
    ensures
        entry_views(final(out)@) == entry_views(old(out)@) + stamp_field(env.entries@, key@),
{
    match env.get(key) {
        Some(_) => push_moved(out, env, key, target),
        None => {
            let ghost before = entry_views(out@);
            out.push(MetaEntry { pointer: target.to_owned(), value: MetaValue::Null });
            assert(entry_views(out@) =~= before + seq![(target@, MetaValue::Null)]);
        },
    }
}

/// The task event an engine job envelope carries, stamped with the
/// envelope's schema, authority, executor and semantic owner; see
/// `unwrapped`.
pub fn engine_job_envelope_to_profiler_event(envelope: Metadata) -> (r: Metadata)
    ensures
        entry_views(r.entries@) == unwrapped(envelope.entries@),
{
    let event = envelope.get("/event");
    let mut ev: Vec<MetaEntry> = Vec::new();
    assert(entry_views(ev@) =~= Seq::<(Seq<char>, MetaValue)>::empty());
    push_moved(&mut ev, &envelope, "/event", "");
    proof {
        reveal_strlit("");
    }
    assert(""@ =~= Seq::<char>::empty());
    match event {
        None => {
            return envelope;
        },
        Some(MetaValue::Object) => {},
        Some(_) => {
            return Metadata { entries: ev };
        },
    }
    let ghost evs = entry_views(ev@);
    let jf = chars_of("/job_envelope");
    let mut out: Vec<MetaEntry> = Vec::new();
    let mut i: usize = 0;
    while i < ev.len()
        invariant
            i <= ev@.len(),
            evs == entry_views(ev@),
            jf@ == "/job_envelope"@,
            entry_views(out@) == outside(evs.take(i as int), "/job_envelope"@),
        decreases ev@.len() - i,
    {
        let e = &ev[i];
        let p = chars_of(e.pointer.as_str());
        assert(evs.take(i + 1).drop_last() =~= evs.take(i as int));
        assert(evs.take(i + 1).last() == entry_view(ev@[i as int]));
        if !points_under(p.as_slice(), jf.as_slice()) {
            let ghost before = entry_views(out@);
            out.push(MetaEntry { pointer: e.pointer.clone(), value: e.value.duplicate() });
            assert(entry_views(out@) =~= before.push(entry_view(ev@[i as int])));
        }
        i += 1;
    }
    assert(evs.take(ev@.len() as int) =~= evs);
    let ghost a = entry_views(out@);
    out.push(MetaEntry { pointer: "/job_envelope".to_owned(), value: MetaValue::Object });
    assert(entry_views(out@) =~= a + seq![("/job_envelope"@, MetaValue::Object)]);
    proof {
        reveal_strlit("/job_envelope");
        reveal_strlit("/schema");
        reveal_strlit("/authority");
        reveal_strlit("/executor");
        reveal_strlit("/semantic_owner");
        reveal_strlit("/job_envelope/schema");
        reveal_strlit("/job_envelope/authority");
        reveal_strlit("/job_envelope/executor");
        reveal_strlit("/job_envelope/semantic_owner");
    }
    assert("/job_envelope/schema"@ =~= "/job_envelope"@ + "/schema"@);
    push_stamp(&mut out, &envelope, "/schema", "/job_envelope/schema");
    assert("/job_envelope/authority"@ =~= "/job_envelope"@ + "/authority"@);
    push_stamp(&mut out, &envelope, "/authority", "/job_envelope/authority");
    assert("/job_envelope/executor"@ =~= "/job_envelope"@ + "/executor"@);
    push_stamp(&mut out, &envelope, "/executor", "/job_envelope/executor");
    assert("/job_envelope/semantic_owner"@ =~= "/job_envelope"@ + "/semantic_owner"@);
    push_stamp(&mut out, &envelope, "/semantic_owner", "/job_envelope/semantic_owner");
    let has_owner = envelope.get("/event/owner").is_some();
    let ghost b = entry_views(out@);
    if !has_owner && envelope.get("/semantic_owner").is_some() {
        push_moved(&mut out, &envelope, "/semantic_owner", "/owner");
    } else {
        assert(entry_views(out@) =~= b + Seq::<(Seq<char>, MetaValue)>::empty());
    }
    Metadata { entries: out }
}

} // verus!
