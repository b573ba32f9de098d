//! Identifiers of the profiler plugin and the event topics it listens to.
use vstd::prelude::*;

verus! {

pub const PROFILER_PLUGIN_ID: &'static str = "newengine.profiler";

pub const PROFILER_PLUGIN_NAME: &'static str = "North Star Profiler";

pub const PROFILER_SERVICE_ID: &'static str = "newengine.profiler.service";

pub const ENGINE_PROFILER_GATEWAY_ID: &'static str = "engine.profiler";

pub const ENGINE_THREADING_GATEWAY_ID: &'static str = "engine.threading";

pub const TASK_INVOKE_SERVICE_V1: &'static str = "engine.threading.invoke_service_v1";

pub const METHOD_FLUSH_REPORT_SYNC_V1: &'static str = "profiler.flush_report_sync_v1";

pub const TOPIC_ENGINE_TASK_EVENT: &'static str = "newengine.engine.task.event.v1";

pub const TOPIC_ENGINE_TASK_ENVELOPE: &'static str = "newengine.engine.job.envelope.v1";

pub const TOPIC_JOB_BEGIN: &'static str = "newengine.profiler.job.begin.v1";

pub const TOPIC_JOB_END: &'static str = "newengine.profiler.job.end.v1";

pub const TOPIC_JOB_STATUS: &'static str = "newengine.task.status.v1";

} // verus!
