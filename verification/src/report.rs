//! The report flush cycle: a flush takes a snapshot, builds and writes the
//! report outside the state, then settles its counters. A shutdown report
//! is written once.
use vstd::prelude::*;

use crate::flush::is_shutdown_report_reason;
use crate::jobs::diag_pushed;
use crate::records::{ProfilerRuntime, ProfilerState};
use crate::text::push_str;

verus! {

/// The reason names one of the final shutdown flushes.
pub open spec fn is_shutdown_reason(reason: Seq<char>) -> bool {
    reason == "service.shutdown_v1"@ || reason == "plugin.shutdown"@
}

/// A flush with this reason is skipped given whether the shutdown report
/// was written.
pub open spec fn skips_flush(written: bool, reason: Seq<char>) -> bool {
    is_shutdown_reason(reason) && written
}

/// The shutdown mark after a successful flush with this reason.
pub open spec fn written_after_success(written: bool, reason: Seq<char>) -> bool {
    written || is_shutdown_reason(reason)
}

/// How a flush request starts.
pub enum FlushStart {
    /// The shutdown report was already written; nothing is done.
    SkippedDuplicateShutdown,
    /// The flush runs; the in-progress count was raised.
    Started,
}

/// Everything of the state but its report counters and diagnostics.
pub open spec fn history_kept<M>(old: ProfilerState<M>, new: ProfilerState<M>) -> bool {
    &&& new.active == old.active
    &&& new.completed == old.completed
    &&& new.flush_requests == old.flush_requests
    &&& new.events_seen == old.events_seen
    &&& new.malformed_events == old.malformed_events
    &&& new.reports_scheduled == old.reports_scheduled
    &&& new.next_local_id == old.next_local_id
}

impl ProfilerRuntime {
    /// Starts a report flush: skipped where it is a shutdown flush and the
    /// shutdown report was already written; otherwise the in-progress count
    /// rises.
    pub fn begin_report_flush<M>(&self, state: &mut ProfilerState<M>, reason: &str) -> (r:
        FlushStart)
        ensures
            (r is SkippedDuplicateShutdown) == skips_flush(
                old(state).shutdown_report_written,
                reason@,
            ),
            r is SkippedDuplicateShutdown ==> *final(state) == *old(state),
            r is Started ==> {
                &&& final(state).reports_in_progress == old(
                    state,
                ).reports_in_progress.saturating_add(1)
                &&& final(state).reports_written == old(state).reports_written
                &&& final(state).reports_failed == old(state).reports_failed
                &&& final(state).shutdown_report_written == old(state).shutdown_report_written
                &&& final(state).diagnostics == old(state).diagnostics
                &&& history_kept(*old(state), *final(state))
            },
    {
        if is_shutdown_report_reason(reason) && state.shutdown_report_written {
            return FlushStart::SkippedDuplicateShutdown;
        }
        state.reports_in_progress = state.reports_in_progress.saturating_add(1);
        FlushStart::Started
    }

    /// Settles a started flush. On success the written count rises, a
    /// shutdown flush marks the shutdown report written, and an `info`
    /// diagnostic records it; on failure the failed count rises and an
    /// `error` diagnostic carries the error. Either way the in-progress count
    /// falls. `elapsed_text` renders the flush's duration in milliseconds.
    pub fn finish_report_flush<M>(
        &self,
        state: &mut ProfilerState<M>,
        reason: &str,
        outcome: Result<(), String>,
        elapsed_text: &str,
        at_unix_ms: u128,
    )
        ensures
            final(state).reports_in_progress == old(state).reports_in_progress.saturating_sub(1),
            history_kept(*old(state), *final(state)),
            match outcome {
                Ok(()) => {
                    &&& final(state).reports_written == old(state).reports_written.saturating_add(1)
                    &&& final(state).reports_failed == old(state).reports_failed
                    &&& final(state).shutdown_report_written == written_after_success(
                        old(state).shutdown_report_written,
                        reason@,
                    )
                    &&& diag_pushed(
                        old(state).diagnostics@,
                        final(state).diagnostics@,
                        "info"@,
                        "profiler_report_flushed"@,
                        "profiler report flushed reason='"@ + reason@ + "' elapsed_ms="@
                            + elapsed_text@ + " policy='snapshot_then_write_outside_lock'"@,
                        None,
                        at_unix_ms,
                        self.cfg.diagnostics.max_recent_diagnostics as nat,
                    )
                },
                Err(e) => {
                    &&& final(state).reports_written == old(state).reports_written
                    &&& final(state).reports_failed == old(state).reports_failed.saturating_add(1)
                    &&& final(state).shutdown_report_written == old(state).shutdown_report_written
                    &&& diag_pushed(
                        old(state).diagnostics@,
                        final(state).diagnostics@,
                        "error"@,
                        "profiler_report_flush_failed"@,
                        "profiler report flush failed reason='"@ + reason@ + "' elapsed_ms="@
                            + elapsed_text@ + ": "@ + e@,
                        None,
                        at_unix_ms,
                        self.cfg.diagnostics.max_recent_diagnostics as nat,
                    )
                },
            },
    {
        state.reports_in_progress = state.reports_in_progress.saturating_sub(1);
        match outcome {
            Ok(()) => {
                state.reports_written = state.reports_written.saturating_add(1);
                if is_shutdown_report_reason(reason) {
                    state.shutdown_report_written = true;
                }
                let mut msg = String::new();
                push_str(&mut msg, "profiler report flushed reason='");
                push_str(&mut msg, reason);
                push_str(&mut msg, "' elapsed_ms=");
                push_str(&mut msg, elapsed_text);
                push_str(&mut msg, " policy='snapshot_then_write_outside_lock'");
                Self::push_diag_locked(
                    &self.cfg,
                    state,
                    "info",
                    "profiler_report_flushed",
                    msg,
                    None,
                    at_unix_ms,
                );
            },
            Err(e) => {
                state.reports_failed = state.reports_failed.saturating_add(1);
                let mut msg = String::new();
                push_str(&mut msg, "profiler report flush failed reason='");
                push_str(&mut msg, reason);
                push_str(&mut msg, "' elapsed_ms=");
                push_str(&mut msg, elapsed_text);
                push_str(&mut msg, ": ");
                push_str(&mut msg, e.as_str());
                Self::push_diag_locked(
                    &self.cfg,
                    state,
                    "error",
                    "profiler_report_flush_failed",
                    msg,
                    None,
                    at_unix_ms,
                );
            },
        }
    }
}

/// A shutdown report is written once: after a successful shutdown flush,
/// every later shutdown flush is skipped, whatever the mark was before.
pub proof fn lemma_shutdown_report_once(written_before: bool, reason: Seq<char>, later: Seq<char>)
    requires
        is_shutdown_reason(reason),
        is_shutdown_reason(later),
    ensures
        skips_flush(written_after_success(written_before, reason), later),
{
}

} // verus!
