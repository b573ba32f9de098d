//! Which events the profiler records, and where each one goes.
use vstd::prelude::*;

use crate::constants::{
    ENGINE_PROFILER_GATEWAY_ID, PROFILER_PLUGIN_ID, PROFILER_SERVICE_ID, TOPIC_ENGINE_TASK_ENVELOPE,
    TOPIC_ENGINE_TASK_EVENT, TOPIC_JOB_BEGIN, TOPIC_JOB_END, TOPIC_JOB_STATUS,
};
use crate::metadata::{meta_get, texts, MetaValue, Metadata};
use crate::records::ProfilerRuntime;
use crate::text::{chars_eq_ignore_case, chars_of, eq_ignore_case, slice_range, str_eq};

verus! {

/// The value at the first of `paths` where the document has a node.
pub open spec fn first_present(m: Seq<crate::metadata::MetaEntry>, paths: Seq<Seq<char>>) -> Option<
    MetaValue,
>
    decreases paths.len(),
{
    if paths.len() == 0 {
        None
    } else if meta_get(m, paths[0]) is Some {
        meta_get(m, paths[0])
    } else {
        first_present(m, paths.drop_first())
    }
}

/// Where the profiler finds the id of an event's emitter.
pub open spec fn emitter_paths() -> Seq<Seq<char>> {
    seq!["/plugin_id"@, "/metadata/plugin_id"@, "/service_id"@, "/metadata/service_id"@]
}

/// The id names the profiler itself.
pub open spec fn is_own_id(id: Seq<char>) -> bool {
    id == PROFILER_PLUGIN_ID@ || id == PROFILER_SERVICE_ID@ || id == ENGINE_PROFILER_GATEWAY_ID@
}

/// The event was emitted by the profiler: the first emitter field present
/// is a string naming the profiler's plugin, service or gateway.
pub open spec fn self_event_spec(m: Seq<crate::metadata::MetaEntry>) -> bool {
    match first_present(m, emitter_paths()) {
        Some(MetaValue::Str(id)) => is_own_id(id@),
        _ => false,
    }
}

/// The source of a high-frequency input event.
pub open spec fn is_input_source(source: Seq<char>) -> bool {
    eq_ignore_case(source, "raw-device"@) || eq_ignore_case(source, "event_bus"@) || eq_ignore_case(
        source,
        "cursor"@,
    )
}

/// The name of a high-frequency input event: a mouse event, a key or a
/// text character (any ASCII case).
pub open spec fn is_input_name(name: Seq<char>) -> bool {
    ||| (name.len() >= 12 && eq_ignore_case(name.take(12), "winit.mouse_"@))
    ||| eq_ignore_case(name, "winit.key"@)
    ||| eq_ignore_case(name, "winit.text_char"@)
}

/// The event routes of the profiler.
pub enum EventRoute {
    /// Not recorded.
    Ignored,
    /// An engine task event.
    EngineTask,
    /// An engine job envelope carrying a task event.
    EngineEnvelope,
    /// A job begins.
    JobBegin,
    /// A job ends.
    JobEnd,
    /// A job reports its status.
    JobStatus,
    /// Any other event, recorded as a completed custom sample.
    Custom,
}

/// The route of a recorded event on `topic`.
pub open spec fn route_spec(topic: Seq<char>, custom_events: bool) -> EventRoute {
    if topic == TOPIC_ENGINE_TASK_EVENT@ {
        EventRoute::EngineTask
    } else if topic == TOPIC_ENGINE_TASK_ENVELOPE@ {
        EventRoute::EngineEnvelope
    } else if topic == TOPIC_JOB_BEGIN@ {
        EventRoute::JobBegin
    } else if topic == TOPIC_JOB_END@ {
        EventRoute::JobEnd
    } else if topic == TOPIC_JOB_STATUS@ {
        EventRoute::JobStatus
    } else if custom_events {
        EventRoute::Custom
    } else {
        EventRoute::Ignored
    }
}

impl ProfilerRuntime {
    /// Whether events of this topic and category are recorded: the profiler
    /// is enabled, and service calls, plugin lifecycle events and task status
    /// events are each recorded only where their capture is switched on.
    pub fn capture_topic(&self, topic: &str, category: &str) -> (r: bool)
        ensures
            r == (self.cfg.enabled && !(category@ == "service_call"@
                && !self.cfg.capture.service_calls) && !(category@ == "plugin_lifecycle"@
                && !self.cfg.capture.plugin_lifecycle) && !(topic@ == TOPIC_JOB_STATUS@
                && !self.cfg.capture.task_status_events)),
    {
        if !self.cfg.enabled {
            return false;
        }
        if str_eq(category, "service_call") && !self.cfg.capture.service_calls {
            return false;
        }
        if str_eq(category, "plugin_lifecycle") && !self.cfg.capture.plugin_lifecycle {
            return false;
        }
        if str_eq(topic, TOPIC_JOB_STATUS) && !self.cfg.capture.task_status_events {
            return false;
        }
        true
    }

    /// Whether the profiler emitted the event itself.
    pub fn is_self_event(&self, value: &Metadata) -> (r: bool)
        ensures
            r == self_event_spec(value.entries@),
    {
        let paths = ["/plugin_id", "/metadata/plugin_id", "/service_id", "/metadata/service_id"];
        assert(texts(paths@) =~= emitter_paths());
        let ghost all = emitter_paths();
        let mut i: usize = 0;
        assert(all.skip(0) =~= all);
        while i < paths.len()
            invariant
                i <= paths.len(),
                all == texts(paths@),
                all == emitter_paths(),
                first_present(value.entries@, all) == first_present(
                    value.entries@,
                    all.skip(i as int),
                ),
            decreases paths.len() - i,
        {
            assert(all.skip(i as int).drop_first() =~= all.skip(i + 1));
            assert(all.skip(i as int)[0] == paths@[i as int]@);
            match value.get(paths[i]) {
                Some(v) => {
                    assert(first_present(value.entries@, all.skip(i as int)) == Some(v));
                    match v {
                        MetaValue::Str(id) => {
                            let a = str_eq(id.as_str(), PROFILER_PLUGIN_ID);
                            let b = str_eq(id.as_str(), PROFILER_SERVICE_ID);
                            let c = str_eq(id.as_str(), ENGINE_PROFILER_GATEWAY_ID);
                            assert((a || b || c) == is_own_id(id@));
                            return a || b || c;
                        },
                        _ => {
                            return false;
                        },
                    }
                },
                None => {},
            }
            i += 1;
        }
        false
    }

    /// The route of a recorded event: by topic, with unknown topics
    /// recorded as custom samples where custom capture is on.
    pub fn event_route(&self, topic: &str) -> (r: EventRoute)
        ensures
            r == route_spec(topic@, self.cfg.capture.custom_events),
    {
        if str_eq(topic, TOPIC_ENGINE_TASK_EVENT) {
            EventRoute::EngineTask
        } else if str_eq(topic, TOPIC_ENGINE_TASK_ENVELOPE) {
            EventRoute::EngineEnvelope
        } else if str_eq(topic, TOPIC_JOB_BEGIN) {
            EventRoute::JobBegin
        } else if str_eq(topic, TOPIC_JOB_END) {
            EventRoute::JobEnd
        } else if str_eq(topic, TOPIC_JOB_STATUS) {
            EventRoute::JobStatus
        } else if self.cfg.capture.custom_events {
            EventRoute::Custom
        } else {
            EventRoute::Ignored
        }
    }
}

/// Whether any of `words` equals `t` ignoring ASCII case.
fn equals_any_ignore_case(t: &[char], words: &[&str]) -> (r: bool)
    ensures
        r == exists|i: int| 0 <= i < words@.len() && eq_ignore_case(t@, #[trigger] words@[i]@),
{
    let mut i: usize = 0;
    while i < words.len()
        invariant
            i <= words.len(),
            forall|j: int| 0 <= j < i ==> !eq_ignore_case(t@, #[trigger] words@[j]@),
        decreases words.len() - i,
    {
        let w = chars_of(words[i]);
        if chars_eq_ignore_case(t, w.as_slice()) {
            return true;
        }
        i += 1;
    }
    false
}

/// Whether an event is a zero-cost input event that would flood the
/// history: no positive elapsed time (`elapsed_positive` tells whether one
/// was measured), category `event`, an input source and an input name.
pub fn is_high_frequency_zero_cost_event(
    category: &str,
    source: &str,
    name: &str,
    elapsed_positive: bool,
) -> (r: bool)
    ensures
        r == (!elapsed_positive && eq_ignore_case(category@, "event"@) && is_input_source(source@)
            && is_input_name(name@)),
{
    if elapsed_positive {
        return false;
    }
    let c = chars_of(category);
    let ev = chars_of("event");
    if !chars_eq_ignore_case(c.as_slice(), ev.as_slice()) {
        return false;
    }
    let s = chars_of(source);
    let sources = ["raw-device", "event_bus", "cursor"];
    let src_ok = equals_any_ignore_case(s.as_slice(), &sources);
    assert(src_ok == is_input_source(source@)) by {
        if is_input_source(source@) {
            if eq_ignore_case(source@, "raw-device"@) { assert(eq_ignore_case(s@, sources@[0]@)); }
            if eq_ignore_case(source@, "event_bus"@) { assert(eq_ignore_case(s@, sources@[1]@)); }
            if eq_ignore_case(source@, "cursor"@) { assert(eq_ignore_case(s@, sources@[2]@)); }
        }
    }
    if !src_ok {
        return false;
    }
    let n = chars_of(name);
    let mouse = chars_of("winit.mouse_");
    let key = chars_of("winit.key");
    let text = chars_of("winit.text_char");
    proof {
        reveal_strlit("winit.mouse_");
    }
    let mouse_ok = if n.len() >= 12 {
        let head = slice_range(n.as_slice(), 0, 12);
        assert(head@ =~= name@.take(12));
        chars_eq_ignore_case(head.as_slice(), mouse.as_slice())
    } else {
        false
    };
    mouse_ok || chars_eq_ignore_case(n.as_slice(), key.as_slice()) || chars_eq_ignore_case(
        n.as_slice(),
        text.as_slice(),
    )
}

} // verus!
