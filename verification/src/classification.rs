//! Scheduling facts of a job (scheduled, blocked, polling, waited on GPU,
//! stayed async, exceeded its frame budget), read from its status text,
//! metadata and measurements.
use vstd::prelude::*;

use crate::metadata::{
    first_bool, first_str, first_u64, first_value_bool, first_value_str, first_value_u64, texts,
    Metadata,
};
use crate::records::JobRecord;
use crate::text::{
    chars_of, contains_chars, contains_seq, lower_chars, lower_seq, lower_text, lower_text_chars,
    string_of, trim_chars, trim_seq,
};

verus! {

/// Some needle occurs in the text.
pub open spec fn contains_any_spec(text: Seq<char>, needles: Seq<Seq<char>>) -> bool {
    exists|i: int| 0 <= i < needles.len() && contains_seq(text, #[trigger] needles[i])
}

/// `contains_any_spec` over characters.
pub fn contains_any_chars(text: &[char], needles: &[&str]) -> (r: bool)
    ensures
        r == contains_any_spec(text@, texts(needles@)),
{
    let ghost ns = texts(needles@);
    let mut i: usize = 0;
    while i < needles.len()
        invariant
            i <= needles.len(),
            ns == texts(needles@),
            forall|j: int| 0 <= j < i ==> !contains_seq(text@, #[trigger] ns[j]),
        decreases needles.len() - i,
    {
        let n = chars_of(needles[i]);
        assert(ns[i as int] == n@);
        if contains_chars(text, n.as_slice()) {
            return true;
        }
        i += 1;
    }
    false
}

/// Whether any of `needles` occurs in `text`.
pub fn contains_any(text: &str, needles: &[&str]) -> (r: bool)
    ensures
        r == contains_any_spec(text@, texts(needles@)),
{
    let t = chars_of(text);
    contains_any_chars(t.as_slice(), needles)
}

/// Joining lowercase parts: `acc` so far, then each present part, lowercased,
/// after a space where something came before it.
pub open spec fn lower_join_from(acc: Seq<char>, parts: Seq<Option<Seq<char>>>) -> Seq<char>
    decreases parts.len(),
{
    if parts.len() == 0 {
        acc
    } else {
        match parts[0] {
            None => lower_join_from(acc, parts.drop_first()),
            Some(p) => lower_join_from(
                (if acc.len() > 0 {
                    acc.push(' ')
                } else {
                    acc
                }) + lower_text(p),
                parts.drop_first(),
            ),
        }
    }
}

/// The texts of optional string slices.
pub open spec fn opt_texts(parts: Seq<Option<&str>>) -> Seq<Option<Seq<char>>> {
    parts.map_values(
        |p: Option<&str>|
            match p {
                Some(s) => Some(s@),
                None => None,
            },
    )
}

/// The present parts, Unicode-lowercased and separated by single spaces.
pub fn lower_join(parts: &[Option<&str>]) -> (r: String)
    ensures
        r@ == lower_join_from(Seq::empty(), opt_texts(parts@)),
{
    let ghost ps = opt_texts(parts@);
    let mut joined: Vec<char> = Vec::new();
    let mut i: usize = 0;
    assert(ps.skip(0) =~= ps);
    while i < parts.len()
        invariant
            i <= parts.len(),
            ps == opt_texts(parts@),
            lower_join_from(joined@, ps.skip(i as int)) == lower_join_from(Seq::empty(), ps),
        decreases parts.len() - i,
    {
        assert(ps.skip(i as int).drop_first() =~= ps.skip(i + 1));
        match parts[i] {
            Some(part) => {
                let ghost before = joined@;
                if joined.len() > 0 {
                    joined.push(' ');
                }
                let v = chars_of(part);
                let mut l = lower_text_chars(v.as_slice());
                joined.append(&mut l);
                assert(ps.skip(i as int)[0] == Some(part@));
                assert(joined@ =~= (if before.len() > 0 {
                    before.push(' ')
                } else {
                    before
                }) + lower_text(part@));
            },
            None => {
                assert(ps.skip(i as int)[0] == None::<Seq<char>>);
            },
        }
        i += 1;
    }
    assert(ps.skip(parts.len() as int) =~= Seq::<Option<Seq<char>>>::empty());
    string_of(joined.as_slice())
}

/// The trimmed value where it is not blank, else the fallback.
pub open spec fn sanitize_spec(value: Option<Seq<char>>, fallback: Seq<char>) -> Seq<char> {
    match value {
        Some(v) => if trim_seq(v).len() > 0 {
            trim_seq(v)
        } else {
            fallback
        },
        None => fallback,
    }
}

/// The trimmed value where it is given and not blank, else `fallback`.
pub fn sanitize_non_empty(value: Option<&str>, fallback: &str) -> (r: String)
    ensures
        r@ == sanitize_spec(
            match value {
                Some(v) => Some(v@),
                None => None,
            },
            fallback@,
        ),
{
    match value {
        Some(v) => {
            let c = chars_of(v);
            let t = trim_chars(c.as_slice());
            if t.len() > 0 {
                string_of(t.as_slice())
            } else {
                fallback.to_owned()
            }
        },
        None => fallback.to_owned(),
    }
}

/// The trimmed text of an optional string, empty when absent.
pub open spec fn opt_trimmed(s: Option<String>) -> Seq<char> {
    match s {
        Some(v) => trim_seq(v@),
        None => Seq::empty(),
    }
}

/// The text of an optional string, empty when absent.
pub open spec fn opt_text(s: Option<String>) -> Seq<char> {
    match s {
        Some(v) => v@,
        None => Seq::empty(),
    }
}

/// The metadata pointers consulted by the classifier.
pub open spec fn lane_paths() -> Seq<Seq<char>> {
    seq!["/lane"@, "/metadata/lane"@, "/event/lane"@]
}

pub open spec fn priority_paths() -> Seq<Seq<char>> {
    seq!["/priority"@, "/metadata/priority"@, "/event/priority"@]
}

pub open spec fn dependency_group_paths() -> Seq<Seq<char>> {
    seq![
        "/dependency_group"@,
        "/dependencyGroup"@,
        "/metadata/dependency_group"@,
        "/metadata/dependencyGroup"@,
    ]
}

pub open spec fn frame_id_paths() -> Seq<Seq<char>> {
    seq![
        "/frame_id"@,
        "/frame"@,
        "/frame_index"@,
        "/metadata/frame_id"@,
        "/metadata/frame"@,
        "/metadata/frame_index"@,
    ]
}

pub open spec fn wait_reason_paths() -> Seq<Seq<char>> {
    seq![
        "/wait_reason"@,
        "/blocked_reason"@,
        "/block_reason"@,
        "/metadata/wait_reason"@,
        "/metadata/blocked_reason"@,
        "/metadata/block_reason"@,
    ]
}

pub open spec fn async_mode_paths() -> Seq<Seq<char>> {
    seq!["/async_mode"@, "/scheduling_mode"@, "/metadata/async_mode"@, "/metadata/scheduling_mode"@]
}

pub open spec fn phase_paths() -> Seq<Seq<char>> {
    seq![
        "/phase"@,
        "/state_label"@,
        "/status"@,
        "/metadata/phase"@,
        "/metadata/state_label"@,
        "/metadata/status"@,
    ]
}

pub open spec fn stayed_async_paths() -> Seq<Seq<char>> {
    seq!["/stayed_async"@, "/async"@, "/metadata/stayed_async"@, "/metadata/async"@]
}

pub open spec fn exceeded_paths() -> Seq<Seq<char>> {
    seq![
        "/exceeded_frame_budget"@,
        "/frame_budget_exceeded"@,
        "/metadata/exceeded_frame_budget"@,
        "/metadata/frame_budget_exceeded"@,
    ]
}

/// The keyword lists of the classifier.
pub open spec fn scheduled_words() -> Seq<Seq<char>> {
    seq!["scheduled"@, "queued"@, "queue"@, "accepted"@]
}

pub open spec fn blocked_phase_words() -> Seq<Seq<char>> {
    seq!["blocked"@, "waiting"@, "stalled"@]
}

pub open spec fn blocked_reason_words() -> Seq<Seq<char>> {
    seq!["blocked"@, "waiting"@, "dependency"@, "residency"@, "barrier"@]
}

pub open spec fn polling_phase_words() -> Seq<Seq<char>> {
    seq!["poll"@, "polling"@]
}

pub open spec fn polling_category_words() -> Seq<Seq<char>> {
    seq!["poll"@]
}

pub open spec fn gpu_reason_words() -> Seq<Seq<char>> {
    seq!["gpu"@, "fence"@, "present"@, "upload"@, "queue"@]
}

pub open spec fn async_mode_words() -> Seq<Seq<char>> {
    seq!["async"@, "engine_threading"@, "job"@, "ticket"@, "poll"@]
}

pub open spec fn async_category_words() -> Seq<Seq<char>> {
    seq![
        "shader.compile"@,
        "asset.decode"@,
        "texture.upload"@,
        "streaming"@,
        "residency"@,
        "renderprep"@,
        "render-prep"@,
    ]
}

/// Metadata values filling a record's labels: each label the metadata has
/// replaces the record's, a missing frame id or a blank wait reason or async
/// mode is taken from the metadata.
pub open spec fn labels_filled<M>(old: JobRecord<M>, new: JobRecord<M>) -> bool {
    let m = old.metadata.entries@;
    &&& new.lane@ == (match first_str(m, lane_paths()) {
        Some(t) => t,
        None => old.lane@,
    })
    &&& new.priority@ == (match first_str(m, priority_paths()) {
        Some(t) => t,
        None => old.priority@,
    })
    &&& new.dependency_group@ == (match first_str(m, dependency_group_paths()) {
        Some(t) => t,
        None => old.dependency_group@,
    })
    &&& new.frame_id == (match old.frame_id {
        Some(f) => Some(f),
        None => first_u64(m, frame_id_paths()),
    })
    &&& (if opt_trimmed(old.wait_reason).len() == 0 {
        match new.wait_reason {
            Some(w) => first_str(m, wait_reason_paths()) == Some(w@),
            None => first_str(m, wait_reason_paths()) is None,
        }
    } else {
        new.wait_reason == old.wait_reason
    })
    &&& (if opt_trimmed(old.async_mode).len() == 0 {
        match new.async_mode {
            Some(a) => first_str(m, async_mode_paths()) == Some(a@),
            None => first_str(m, async_mode_paths()) is None,
        }
    } else {
        new.async_mode == old.async_mode
    })
}

/// The lowercase phase text: status, detail and the metadata's phase label.
pub open spec fn phase_of<M>(r: JobRecord<M>) -> Seq<char> {
    lower_join_from(
        Seq::empty(),
        seq![Some(r.status@), Some(r.detail@), first_str(r.metadata.entries@, phase_paths())],
    )
}

/// Each scheduling flag of `new` is the flag of `old`, or set where its
/// evidence is found in the status text, the category, the wait reason and
/// async mode of `new`, the metadata or the measurement facts.
pub open spec fn flags_set<M>(old: JobRecord<M>, new: JobRecord<M>) -> bool {
    let m = old.metadata.entries@;
    let phase = phase_of(old);
    let category = lower_seq(old.category@);
    let reason = lower_seq(opt_text(new.wait_reason));
    let mode = lower_seq(opt_text(new.async_mode));
    &&& new.scheduled == (old.scheduled || contains_any_spec(phase, scheduled_words()))
    &&& new.blocked == (old.blocked || contains_any_spec(phase, blocked_phase_words())
        || contains_any_spec(reason, blocked_reason_words()))
    &&& new.polling == (old.polling || contains_any_spec(phase, polling_phase_words())
        || contains_any_spec(category, polling_category_words()))
    &&& new.waited_on_gpu == (old.waited_on_gpu || old.facts.gpu_wait_positive
        || contains_any_spec(reason, gpu_reason_words()))
    &&& new.stayed_async == (old.stayed_async || first_bool(m, stayed_async_paths()) == Some(true)
        || contains_any_spec(mode, async_mode_words()) || contains_any_spec(
        category,
        async_category_words(),
    ))
    &&& new.exceeded_frame_budget == (old.exceeded_frame_budget
        || old.facts.elapsed_over_frame_budget || first_bool(m, exceeded_paths()) == Some(true))
}

/// Fields that classification does not touch.
pub open spec fn identity_kept<M>(old: JobRecord<M>, new: JobRecord<M>) -> bool {
    &&& new.id == old.id
    &&& new.name == old.name
    &&& new.category == old.category
    &&& new.source == old.source
    &&& new.status == old.status
    &&& new.detail == old.detail
    &&& new.started_unix_ms == old.started_unix_ms
    &&& new.ended_unix_ms == old.ended_unix_ms
    &&& new.payload_bytes == old.payload_bytes
    &&& new.output_bytes == old.output_bytes
    &&& new.error == old.error
    &&& new.metadata == old.metadata
    &&& new.facts == old.facts
    &&& new.timing == old.timing
}

/// The scheduling flags of a record.
pub open spec fn flags_kept<M>(old: JobRecord<M>, new: JobRecord<M>) -> bool {
    &&& new.scheduled == old.scheduled
    &&& new.blocked == old.blocked
    &&& new.polling == old.polling
    &&& new.waited_on_gpu == old.waited_on_gpu
    &&& new.stayed_async == old.stayed_async
    &&& new.exceeded_frame_budget == old.exceeded_frame_budget
}

/// The labels of a record.
pub open spec fn labels_kept<M>(old: JobRecord<M>, new: JobRecord<M>) -> bool {
    &&& new.lane == old.lane
    &&& new.priority == old.priority
    &&& new.dependency_group == old.dependency_group
    &&& new.frame_id == old.frame_id
    &&& new.wait_reason == old.wait_reason
    &&& new.async_mode == old.async_mode
}

/// The record after classification.
pub open spec fn classified<M>(old: JobRecord<M>, new: JobRecord<M>) -> bool {
    &&& labels_filled(old, new)
    &&& flags_set(old, new)
    &&& identity_kept(old, new)
}

/// Lowercased text of an optional string, empty when absent.
fn lower_opt(s: &Option<String>) -> (r: Vec<char>)
    ensures
        r@ == lower_seq(opt_text(*s)),
{
    match s {
        Some(v) => {
            let c = chars_of(v.as_str());
            lower_chars(c.as_slice())
        },
        None => {
            let e: Vec<char> = Vec::new();
            assert(lower_seq(Seq::<char>::empty()) =~= Seq::<char>::empty());
            e
        },
    }
}

/// Whether an optional string is absent or blank.
fn blank_opt(s: &Option<String>) -> (r: bool)
    ensures
        r == (opt_trimmed(*s).len() == 0),
{
    match s {
        Some(v) => {
            let c = chars_of(v.as_str());
            let t = trim_chars(c.as_slice());
            t.len() == 0
        },
        None => true,
    }
}

/// Fills the labels of a record from its metadata.
fn fill_labels<M>(record: &mut JobRecord<M>)
    ensures
        labels_filled(*old(record), *final(record)),
        flags_kept(*old(record), *final(record)),
        identity_kept(*old(record), *final(record)),
{
    let lane_p = ["/lane", "/metadata/lane", "/event/lane"];
    let priority_p = ["/priority", "/metadata/priority", "/event/priority"];
    let group_p = [
        "/dependency_group",
        "/dependencyGroup",
        "/metadata/dependency_group",
        "/metadata/dependencyGroup",
    ];
    let frame_p = [
        "/frame_id",
        "/frame",
        "/frame_index",
        "/metadata/frame_id",
        "/metadata/frame",
        "/metadata/frame_index",
    ];
    let wait_p = [
        "/wait_reason",
        "/blocked_reason",
        "/block_reason",
        "/metadata/wait_reason",
        "/metadata/blocked_reason",
        "/metadata/block_reason",
    ];
    let async_p = ["/async_mode", "/scheduling_mode", "/metadata/async_mode", "/metadata/scheduling_mode"];
    assert(texts(lane_p@) =~= lane_paths());
    assert(texts(priority_p@) =~= priority_paths());
    assert(texts(group_p@) =~= dependency_group_paths());
    assert(texts(frame_p@) =~= frame_id_paths());
    assert(texts(wait_p@) =~= wait_reason_paths());
    assert(texts(async_p@) =~= async_mode_paths());
    if let Some(v) = first_value_str(&record.metadata, &lane_p) {
        record.lane = v;
    }
    if let Some(v) = first_value_str(&record.metadata, &priority_p) {
        record.priority = v;
    }
    if let Some(v) = first_value_str(&record.metadata, &group_p) {
        record.dependency_group = v;
    }
    if record.frame_id.is_none() {
        record.frame_id = first_value_u64(&record.metadata, &frame_p);
    }
    if blank_opt(&record.wait_reason) {
        record.wait_reason = first_value_str(&record.metadata, &wait_p);
    }
    if blank_opt(&record.async_mode) {
        record.async_mode = first_value_str(&record.metadata, &async_p);
    }
}

/// The lowercase phase text of a record.
fn phase_chars<M>(record: &JobRecord<M>) -> (r: Vec<char>)
    ensures
        r@ == phase_of(*record),
{
    let phase_p = [
        "/phase",
        "/state_label",
        "/status",
        "/metadata/phase",
        "/metadata/state_label",
        "/metadata/status",
    ];
    assert(texts(phase_p@) =~= phase_paths());
    let ghost m = record.metadata.entries@;
    let metadata_phase = first_value_str(&record.metadata, &phase_p);
    let phase = match &metadata_phase {
        Some(p) => {
            let arr = [Some(record.status.as_str()), Some(record.detail.as_str()), Some(p.as_str())];
            assert(opt_texts(arr@) =~= seq![Some(record.status@), Some(record.detail@), first_str(m, phase_paths())]);
            lower_join(&arr)
        },
        None => {
            let arr = [Some(record.status.as_str()), Some(record.detail.as_str()), None];
            assert(opt_texts(arr@) =~= seq![Some(record.status@), Some(record.detail@), first_str(m, phase_paths())]);
            lower_join(&arr)
        },
    };
    chars_of(phase.as_str())
}

/// Whether some keyword of `words` occurs in `text`.
fn has_word(text: &[char], words: &[&str], Ghost(expected): Ghost<Seq<Seq<char>>>) -> (r: bool)
    requires
        texts(words@) == expected,
    ensures
        r == contains_any_spec(text@, expected),
{
    contains_any_chars(text, words)
}

/// Sets the scheduling flags of a record where their evidence is found.
fn set_flags<M>(record: &mut JobRecord<M>)
    ensures
        flags_set(*old(record), *final(record)),
        labels_kept(*old(record), *final(record)),
        identity_kept(*old(record), *final(record)),
{
    let phase_c = phase_chars(record);
    let category_c0 = chars_of(record.category.as_str());
    let category_c = lower_chars(category_c0.as_slice());
    let reason_c = lower_opt(&record.wait_reason);
    let mode_c = lower_opt(&record.async_mode);

    let sw = ["scheduled", "queued", "queue", "accepted"];
    let bpw = ["blocked", "waiting", "stalled"];
    let brw = ["blocked", "waiting", "dependency", "residency", "barrier"];
    let ppw = ["poll", "polling"];
    let pcw = ["poll"];
    let grw = ["gpu", "fence", "present", "upload", "queue"];
    let amw = ["async", "engine_threading", "job", "ticket", "poll"];
    let acw = [
        "shader.compile",
        "asset.decode",
        "texture.upload",
        "streaming",
        "residency",
        "renderprep",
        "render-prep",
    ];
    assert(texts(sw@) =~= scheduled_words());
    assert(texts(bpw@) =~= blocked_phase_words());
    assert(texts(brw@) =~= blocked_reason_words());
    assert(texts(ppw@) =~= polling_phase_words());
    assert(texts(pcw@) =~= polling_category_words());
    assert(texts(grw@) =~= gpu_reason_words());
    assert(texts(amw@) =~= async_mode_words());
    assert(texts(acw@) =~= async_category_words());
    let stayed_p = ["/stayed_async", "/async", "/metadata/stayed_async", "/metadata/async"];
    let exceeded_p = [
        "/exceeded_frame_budget",
        "/frame_budget_exceeded",
        "/metadata/exceeded_frame_budget",
        "/metadata/frame_budget_exceeded",
    ];
    assert(texts(stayed_p@) =~= stayed_async_paths());
    assert(texts(exceeded_p@) =~= exceeded_paths());

    let scheduled = has_word(phase_c.as_slice(), &sw, Ghost(scheduled_words()));
    let blocked = has_word(phase_c.as_slice(), &bpw, Ghost(blocked_phase_words())) || has_word(
        reason_c.as_slice(),
        &brw,
        Ghost(blocked_reason_words()),
    );
    let polling = has_word(phase_c.as_slice(), &ppw, Ghost(polling_phase_words())) || has_word(
        category_c.as_slice(),
        &pcw,
        Ghost(polling_category_words()),
    );
    let gpu = has_word(reason_c.as_slice(), &grw, Ghost(gpu_reason_words()));
    let async_flag = match first_value_bool(&record.metadata, &stayed_p) {
        Some(b) => b,
        None => false,
    };
    let stayed = async_flag || has_word(mode_c.as_slice(), &amw, Ghost(async_mode_words()))
        || has_word(category_c.as_slice(), &acw, Ghost(async_category_words()));
    let exceeded_flag = match first_value_bool(&record.metadata, &exceeded_p) {
        Some(b) => b,
        None => false,
    };
    record.scheduled = record.scheduled || scheduled;
    record.blocked = record.blocked || blocked;
    record.polling = record.polling || polling;
    record.waited_on_gpu = record.waited_on_gpu || record.facts.gpu_wait_positive || gpu;
    record.stayed_async = record.stayed_async || stayed;
    record.exceeded_frame_budget = record.exceeded_frame_budget
        || record.facts.elapsed_over_frame_budget || exceeded_flag;
}

/// Fills a record's labels from its metadata and sets its scheduling flags
/// where their evidence is found in its status text, metadata and
/// measurement facts. A flag that was set stays set.
pub fn refresh_record_classification<M>(record: &mut JobRecord<M>)
    ensures
        classified(*old(record), *final(record)),
{
    fill_labels(record);
    set_flags(record);
}

/// A job whose lowercased wait reason mentions `blocked`, `waiting`,
/// `dependency`, `residency` or `barrier` is classified as blocked.
pub proof fn lemma_blocking_wait_reason<M>(old: JobRecord<M>, new: JobRecord<M>, word: Seq<char>)
    requires
        classified(old, new),
        word == "blocked"@ || word == "waiting"@ || word == "dependency"@ || word == "residency"@
            || word == "barrier"@,
        contains_seq(lower_seq(opt_text(new.wait_reason)), word),
    ensures
        new.blocked,
{
    let ws = blocked_reason_words();
    let reason = lower_seq(opt_text(new.wait_reason));
    let i: int = if word == "blocked"@ {
        0
    } else if word == "waiting"@ {
        1
    } else if word == "dependency"@ {
        2
    } else if word == "residency"@ {
        3
    } else {
        4
    };
    assert(ws[i] == word);
    assert(contains_seq(reason, ws[i]));
    assert(contains_any_spec(reason, ws));
}

/// Evidence in the status text (status, detail and phase label, lowercased)
/// sets a flag: `scheduled`, `queued`, `queue` or `accepted` marks the job
/// scheduled; `blocked`, `waiting` or `stalled` marks it blocked; `poll`
/// marks it polling. A flag that was set stays set.
pub proof fn lemma_phase_words_set_flags<M>(old: JobRecord<M>, new: JobRecord<M>, word: Seq<char>)
    requires
        classified(old, new),
        contains_seq(phase_of(old), word),
    ensures
        word == "scheduled"@ || word == "queued"@ || word == "queue"@ || word == "accepted"@
            ==> new.scheduled,
        word == "blocked"@ || word == "waiting"@ || word == "stalled"@ ==> new.blocked,
        word == "poll"@ || word == "polling"@ ==> new.polling,
        old.scheduled ==> new.scheduled,
        old.blocked ==> new.blocked,
        old.polling ==> new.polling,
        old.waited_on_gpu ==> new.waited_on_gpu,
        old.stayed_async ==> new.stayed_async,
        old.exceeded_frame_budget ==> new.exceeded_frame_budget,
{
    let phase = phase_of(old);
    let sw = scheduled_words();
    let bw = blocked_phase_words();
    let pw = polling_phase_words();
    if word == "scheduled"@ {
        assert(sw[0] == word);
    } else if word == "queued"@ {
        assert(sw[1] == word);
    } else if word == "queue"@ {
        assert(sw[2] == word);
    } else if word == "accepted"@ {
        assert(sw[3] == word);
    }
    if word == "blocked"@ {
        assert(bw[0] == word);
    } else if word == "waiting"@ {
        assert(bw[1] == word);
    } else if word == "stalled"@ {
        assert(bw[2] == word);
    }
    if word == "poll"@ {
        assert(pw[0] == word);
    } else if word == "polling"@ {
        assert(pw[1] == word);
    }
}

/// A lowercased wait reason that mentions `gpu`, `fence`, `present`,
/// `upload` or `queue` marks the job as waiting on the GPU.
pub proof fn lemma_gpu_wait_reason<M>(old: JobRecord<M>, new: JobRecord<M>, word: Seq<char>)
    requires
        classified(old, new),
        word == "gpu"@ || word == "fence"@ || word == "present"@ || word == "upload"@ || word == "queue"@,
        contains_seq(lower_seq(opt_text(new.wait_reason)), word),
    ensures
        new.waited_on_gpu,
{
    let ws = gpu_reason_words();
    if word == "gpu"@ {
        assert(ws[0] == word);
    } else if word == "fence"@ {
        assert(ws[1] == word);
    } else if word == "present"@ {
        assert(ws[2] == word);
    } else if word == "upload"@ {
        assert(ws[3] == word);
    } else {
        assert(ws[4] == word);
    }
}

/// A job stays asynchronous where its lowercased async mode mentions
/// `async`, `engine_threading`, `job`, `ticket` or `poll`, or its lowercased
/// category mentions `shader.compile`, `asset.decode`, `texture.upload`,
/// `streaming`, `residency`, `renderprep` or `render-prep`.
pub proof fn lemma_async_evidence<M>(old: JobRecord<M>, new: JobRecord<M>, word: Seq<char>)
    requires
        classified(old, new),
    ensures
        (word == "async"@ || word == "engine_threading"@ || word == "job"@ || word == "ticket"@ || word
            == "poll"@) && contains_seq(lower_seq(opt_text(new.async_mode)), word) ==> new.stayed_async,
        (word == "shader.compile"@ || word == "asset.decode"@ || word == "texture.upload"@ || word
            == "streaming"@ || word == "residency"@ || word == "renderprep"@ || word == "render-prep"@)
            && contains_seq(lower_seq(old.category@), word) ==> new.stayed_async,
{
    let mw = async_mode_words();
    let cw = async_category_words();
    if word == "async"@ {
        assert(mw[0] == word);
    } else if word == "engine_threading"@ {
        assert(mw[1] == word);
    } else if word == "job"@ {
        assert(mw[2] == word);
    } else if word == "ticket"@ {
        assert(mw[3] == word);
    } else if word == "poll"@ {
        assert(mw[4] == word);
    }
    if word == "shader.compile"@ {
        assert(cw[0] == word);
    } else if word == "asset.decode"@ {
        assert(cw[1] == word);
    } else if word == "texture.upload"@ {
        assert(cw[2] == word);
    } else if word == "streaming"@ {
        assert(cw[3] == word);
    } else if word == "residency"@ {
        assert(cw[4] == word);
    } else if word == "renderprep"@ {
        assert(cw[5] == word);
    } else if word == "render-prep"@ {
        assert(cw[6] == word);
    }
}

} // verus!
