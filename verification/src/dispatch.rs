//! The profiler's event entry point: counting, filtering and routing each
//! event to its recorder, and noting events that cannot be read.
use vstd::prelude::*;

use crate::constants::TOPIC_JOB_STATUS;
use crate::envelope::{engine_job_envelope_to_profiler_event, entry_views, unwrapped};
use crate::events::{route_spec, self_event_spec, EventRoute};
use crate::jobs::diag_pushed;
use crate::metadata::{text_at, text_value_at, Metadata};
use crate::records::{ProfilerConfig, ProfilerRuntime, ProfilerState};
use crate::recorder::{
    active_unique, begin_recorded, custom_recorded, end_recorded, engine_recorded, engine_refused,
    status_recorded, Measure,
};
use crate::text::push_str;
use crate::wire::{
    begin_wire_of, begin_wire_ok, end_wire_of, end_wire_ok, parse_begin_wire, parse_end_wire,
    parse_status_wire, status_wire_of, status_wire_ok,
};

verus! {

/// Events of this topic and category are recorded.
pub open spec fn captured(cfg: ProfilerConfig, topic: Seq<char>, category: Seq<char>) -> bool {
    &&& cfg.enabled
    &&& !(category == "service_call"@ && !cfg.capture.service_calls)
    &&& !(category == "plugin_lifecycle"@ && !cfg.capture.plugin_lifecycle)
    &&& !(topic == TOPIC_JOB_STATUS@ && !cfg.capture.task_status_events)
}

/// `new` is `old` with one more event seen.
pub open spec fn seen<M>(old: ProfilerState<M>, new: ProfilerState<M>) -> bool {
    &&& new.events_seen == old.events_seen.saturating_add(1)
    &&& new.active == old.active
    &&& new.completed == old.completed
    &&& new.diagnostics == old.diagnostics
    &&& new.flush_requests == old.flush_requests
    &&& new.malformed_events == old.malformed_events
    &&& new.reports_written == old.reports_written
    &&& new.reports_in_progress == old.reports_in_progress
    &&& new.reports_scheduled == old.reports_scheduled
    &&& new.reports_failed == old.reports_failed
    &&& new.shutdown_report_written == old.shutdown_report_written
    &&& new.next_local_id == old.next_local_id
}

/// `new` is `old` with one more malformed event and a warning about it.
pub open spec fn malformed_noted<M>(
    old: ProfilerState<M>,
    new: ProfilerState<M>,
    code: Seq<char>,
    message: Seq<char>,
    max_diags: nat,
) -> bool {
    &&& new.malformed_events == old.malformed_events.saturating_add(1)
    &&& exists|t: u128| diag_pushed(old.diagnostics@, new.diagnostics@, "warn"@, code, message, None, t, max_diags)
    &&& new.active == old.active
    &&& new.completed == old.completed
    &&& new.flush_requests == old.flush_requests
    &&& new.events_seen == old.events_seen
    &&& new.reports_written == old.reports_written
    &&& new.reports_in_progress == old.reports_in_progress
    &&& new.reports_scheduled == old.reports_scheduled
    &&& new.reports_failed == old.reports_failed
    &&& new.shutdown_report_written == old.shutdown_report_written
    &&& new.next_local_id == old.next_local_id
}

/// A bad event of some error text, noted under `code` with `context`.
pub open spec fn bad_event_noted<M>(
    old: ProfilerState<M>,
    new: ProfilerState<M>,
    code: Seq<char>,
    context: Seq<char>,
    max_diags: nat,
) -> bool {
    exists|e: Seq<char>| #[trigger] malformed_noted(old, new, code, context + ": "@ + e, max_diags)
}

/// What an engine task event does: recorded where it is accepted, noted as
/// bad otherwise.
pub open spec fn engine_outcome<M>(
    max_jobs: nat,
    max_diags: nat,
    old: ProfilerState<M>,
    new: ProfilerState<M>,
    value: Metadata,
    code: Seq<char>,
    context: Seq<char>,
) -> bool {
    if engine_refused(old, value) {
        bad_event_noted(old, new, code, context, max_diags)
    } else {
        engine_recorded(max_jobs, max_diags, old, new, value)
    }
}

/// What a read event does once it is counted, captured and not the
/// profiler's own.
pub open spec fn routed<M>(
    cfg: ProfilerConfig,
    old: ProfilerState<M>,
    new: ProfilerState<M>,
    topic: Seq<char>,
    value: Metadata,
) -> bool {
    let maxj = cfg.diagnostics.max_recent_jobs as nat;
    let maxd = cfg.diagnostics.max_recent_diagnostics as nat;
    let es = value.entries@;
    match route_spec(topic, cfg.capture.custom_events) {
        EventRoute::EngineTask => engine_outcome(
            maxj,
            maxd,
            old,
            new,
            value,
            "bad_engine_task_event"@,
            "bad engine task event"@,
        ),
        EventRoute::EngineEnvelope => exists|u: Metadata|
            entry_views(u.entries@) == unwrapped(es) && #[trigger] engine_outcome(
                maxj,
                maxd,
                old,
                new,
                u,
                "bad_engine_job_event"@,
                "bad engine job event"@,
            ),
        EventRoute::JobBegin => if begin_wire_ok(es) {
            exists|w: crate::recorder::JobBeginWire|
                begin_wire_of(w, es) && #[trigger] begin_recorded(maxd, old, new, w, value)
        } else {
            bad_event_noted(old, new, "bad_job_begin_event"@, "bad job begin event"@, maxd)
        },
        EventRoute::JobEnd => if end_wire_ok(es) {
            exists|w: crate::recorder::JobEndWire|
                end_wire_of(w, es) && #[trigger] end_recorded(maxj, maxd, old, new, w, value)
        } else {
            bad_event_noted(old, new, "bad_job_end_event"@, "bad job end event"@, maxd)
        },
        EventRoute::JobStatus => if status_wire_ok(es) {
            exists|w: crate::recorder::JobStatusWire|
                status_wire_of(w, es) && #[trigger] status_recorded(maxj, maxd, old, new, w, value)
        } else {
            bad_event_noted(old, new, "bad_job_status_event"@, "bad job status event"@, maxd)
        },
        EventRoute::Custom => custom_recorded(maxj, maxd, old, new, topic, value),
        EventRoute::Ignored => new == old,
    }
}

/// What an event on `topic` does to the state: nothing while the profiler
/// is off; otherwise it is counted; unreadable JSON is noted; an event not
/// captured, or the profiler's own where those are ignored, goes no
/// further; any other is routed.
pub open spec fn event_handled<M>(
    cfg: ProfilerConfig,
    old: ProfilerState<M>,
    new: ProfilerState<M>,
    topic: Seq<char>,
    event: Result<Metadata, String>,
) -> bool {
    if !cfg.enabled {
        new == old
    } else {
        exists|s1: ProfilerState<M>|
            #[trigger] seen(old, s1) && match event {
                Err(e) => malformed_noted(
                    s1,
                    new,
                    "malformed_event_json"@,
                    "event topic='"@ + topic + "' has invalid JSON: "@ + e@,
                    cfg.diagnostics.max_recent_diagnostics as nat,
                ),
                Ok(v) => {
                    let category = match text_at(v.entries@, "/category"@) {
                        Some(c) => c,
                        None => Seq::empty(),
                    };
                    if !captured(cfg, topic, category) || (cfg.ignore_self && self_event_spec(
                        v.entries@,
                    )) {
                        new == s1
                    } else {
                        routed(cfg, s1, new, topic, v)
                    }
                },
            }
    }
}

impl ProfilerRuntime {
    /// Notes an event that could not be recorded.
    fn note_bad_event<M, C: Measure<M>>(
        &self,
        state: &mut ProfilerState<M>,
        clock: &C,
        code: &str,
        context: &str,
        error: String,
    )
        ensures
            malformed_noted(
                *old(state),
                *final(state),
                code@,
                context@ + ": "@ + error@,
                self.cfg.diagnostics.max_recent_diagnostics as nat,
            ),
    {
        state.malformed_events = state.malformed_events.saturating_add(1);
        let mut msg = String::new();
        push_str(&mut msg, context);
        push_str(&mut msg, ": ");
        push_str(&mut msg, error.as_str());
        let now = clock.now_unix_ms();
        Self::push_diag_locked(&self.cfg, state, "warn", code, msg, None, now);
    }

    /// Handles one event on `topic`: the event as read from its JSON, or
    /// the reason it could not be read.
    pub fn on_event<M, C: Measure<M>>(
        &self,
        state: &mut ProfilerState<M>,
        clock: &C,
        topic: &str,
        event: Result<Metadata, String>,
    )
        requires
            active_unique(old(state).active@),
        ensures
            active_unique(final(state).active@),
            event_handled(self.cfg, *old(state), *final(state), topic@, event),
    {
        let ghost ev = event;
        let ghost s0 = *state;
        if !self.cfg.enabled {
            return ;
        }
        state.events_seen = state.events_seen.saturating_add(1);
        let ghost s1 = *state;
        assert(seen(s0, s1));
        let maxd = Ghost(self.cfg.diagnostics.max_recent_diagnostics as nat);
        let value = match event {
            Ok(v) => v,
            Err(e) => {
                state.malformed_events = state.malformed_events.saturating_add(1);
                let mut msg = String::new();
                push_str(&mut msg, "event topic='");
                push_str(&mut msg, topic);
                push_str(&mut msg, "' has invalid JSON: ");
                push_str(&mut msg, e.as_str());
                let now = clock.now_unix_ms();
                Self::push_diag_locked(
                    &self.cfg,
                    state,
                    "warn",
                    "malformed_event_json",
                    msg,
                    None,
                    now,
                );
                return ;
            },
        };
        let ghost v0 = value;
        let category = match text_value_at(&value, "/category") {
            Some(c) => c,
            None => String::new(),
        };
        if !self.capture_topic(topic, category.as_str()) {
            return ;
        }
        if self.cfg.ignore_self && self.is_self_event(&value) {
            return ;
        }
        match self.event_route(topic) {
            EventRoute::EngineTask => {
                match self.record_engine_task_event_locked(state, clock, value) {
                    Ok(_) => {},
                    Err(e) => {
                        let ghost ee = e@;
                        self.note_bad_event(
                            state,
                            clock,
                            "bad_engine_task_event",
                            "bad engine task event",
                            e,
                        );
                        assert(bad_event_noted(
                            s1,
                            *state,
                            "bad_engine_task_event"@,
                            "bad engine task event"@,
                            maxd@,
                        ));
                    },
                }
            },
            EventRoute::EngineEnvelope => {
                let u = engine_job_envelope_to_profiler_event(value);
                let ghost u0 = u;
                match self.record_engine_task_event_locked(state, clock, u) {
                    Ok(_) => {},
                    Err(e) => {
                        self.note_bad_event(
                            state,
                            clock,
                            "bad_engine_job_event",
                            "bad engine job event",
                            e,
                        );
                        assert(bad_event_noted(
                            s1,
                            *state,
                            "bad_engine_job_event"@,
                            "bad engine job event"@,
                            maxd@,
                        ));
                    },
                }
                assert(engine_outcome(
                    self.cfg.diagnostics.max_recent_jobs as nat,
                    maxd@,
                    s1,
                    *state,
                    u0,
                    "bad_engine_job_event"@,
                    "bad engine job event"@,
                ));
            },
            EventRoute::JobBegin => {
                match parse_begin_wire(&value) {
                    Ok(w) => {
                        let ghost w0 = w;
                        self.record_begin_locked(state, clock, w, value);
                        assert(begin_recorded(maxd@, s1, *state, w0, v0));
                    },
                    Err(e) => {
                        self.note_bad_event(state, clock, "bad_job_begin_event", "bad job begin event", e);
                        assert(bad_event_noted(
                            s1,
                            *state,
                            "bad_job_begin_event"@,
                            "bad job begin event"@,
                            maxd@,
                        ));
                    },
                }
            },
            EventRoute::JobEnd => {
                match parse_end_wire(&value) {
                    Ok(w) => {
                        let ghost w0 = w;
                        self.record_end_locked(state, clock, w, value);
                        assert(end_recorded(
                            self.cfg.diagnostics.max_recent_jobs as nat,
                            maxd@,
                            s1,
                            *state,
                            w0,
                            v0,
                        ));
                    },
                    Err(e) => {
                        self.note_bad_event(state, clock, "bad_job_end_event", "bad job end event", e);
                        assert(bad_event_noted(
                            s1,
                            *state,
                            "bad_job_end_event"@,
                            "bad job end event"@,
                            maxd@,
                        ));
                    },
                }
            },
            EventRoute::JobStatus => {
                match parse_status_wire(&value) {
                    Ok(w) => {
                        let ghost w0 = w;
                        self.record_status_locked(state, clock, w, value);
                        assert(status_recorded(
                            self.cfg.diagnostics.max_recent_jobs as nat,
                            maxd@,
                            s1,
                            *state,
                            w0,
                            v0,
                        ));
                    },
                    Err(e) => {
                        self.note_bad_event(
                            state,
                            clock,
                            "bad_job_status_event",
                            "bad job status event",
                            e,
                        );
                        assert(bad_event_noted(
                            s1,
                            *state,
                            "bad_job_status_event"@,
                            "bad job status event"@,
                            maxd@,
                        ));
                    },
                }
            },
            EventRoute::Custom => {
                self.record_custom_event_locked(state, clock, topic, value);
            },
            EventRoute::Ignored => {},
        }
        assert(routed(self.cfg, s1, *state, topic@, v0));
    }
}

} // verus!
