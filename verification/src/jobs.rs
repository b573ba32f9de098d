//! Completing jobs into the bounded history, and the bounded diagnostic log.
use vstd::prelude::*;

use crate::classification::{classified, refresh_record_classification};
use crate::records::{JobRecord, ProfilerConfig, ProfilerDiagnostic, ProfilerRuntime, ProfilerState};
use crate::text::{chars_of, push_str, str_eq};

verus! {

/// The last `max` elements of `s` (all of them where there are fewer).
pub open spec fn keep_last<T>(s: Seq<T>, max: nat) -> Seq<T> {
    if s.len() > max {
        s.skip(s.len() - max)
    } else {
        s
    }
}

/// A diagnostic with the given fields.
pub open spec fn diag_fields(
    d: ProfilerDiagnostic,
    level: Seq<char>,
    code: Seq<char>,
    message: Seq<char>,
    job_id: Option<Seq<char>>,
    at_unix_ms: u128,
) -> bool {
    &&& d.level@ == level
    &&& d.code@ == code
    &&& d.message@ == message
    &&& (match d.job_id {
        Some(j) => job_id == Some(j@),
        None => job_id is None,
    })
    &&& d.at_unix_ms == at_unix_ms
}

/// The log `new` is `old` with `d` appended, cut to its last `max` entries.
pub open spec fn diag_pushed(
    old: Seq<ProfilerDiagnostic>,
    new: Seq<ProfilerDiagnostic>,
    level: Seq<char>,
    code: Seq<char>,
    message: Seq<char>,
    job_id: Option<Seq<char>>,
    at_unix_ms: u128,
    max: nat,
) -> bool {
    exists|d: ProfilerDiagnostic|
        diag_fields(d, level, code, message, job_id, at_unix_ms) && new == keep_last(
            #[trigger] old.push(d),
            max,
        )
}

/// Everything of the state but its diagnostics and completed jobs.
pub open spec fn counters_kept<M>(old: ProfilerState<M>, new: ProfilerState<M>) -> bool {
    &&& new.active == old.active
    &&& new.flush_requests == old.flush_requests
    &&& new.events_seen == old.events_seen
    &&& new.malformed_events == old.malformed_events
    &&& new.reports_written == old.reports_written
    &&& new.reports_in_progress == old.reports_in_progress
    &&& new.reports_scheduled == old.reports_scheduled
    &&& new.reports_failed == old.reports_failed
    &&& new.shutdown_report_written == old.shutdown_report_written
    &&& new.next_local_id == old.next_local_id
}

/// A record worth keeping over ordinary ones: failed, slow, over budget,
/// over its frame budget, or waiting on the GPU.
pub open spec fn significant<M>(job: JobRecord<M>) -> bool {
    ||| job.status@ == "failed"@
    ||| job.facts.slow
    ||| job.facts.over_budget
    ||| job.exceeded_frame_budget
    ||| job.waited_on_gpu
    ||| job.facts.gpu_wait_positive
}

/// `p` is the position of the oldest ordinary record.
pub open spec fn is_first_ordinary<M>(s: Seq<JobRecord<M>>, p: int) -> bool {
    &&& 0 <= p < s.len()
    &&& !significant(s[p])
    &&& forall|j: int| 0 <= j < p ==> significant(#[trigger] s[j])
}

/// One eviction: the oldest ordinary record leaves; where every record is
/// significant, the oldest record leaves.
pub open spec fn evict_once<M>(s: Seq<JobRecord<M>>) -> Seq<JobRecord<M>> {
    if exists|p: int| is_first_ordinary(s, p) {
        s.remove(choose|p: int| is_first_ordinary(s, p))
    } else {
        s.drop_first()
    }
}

/// Evictions until at most `max` records are left.
pub open spec fn evict_to<M>(s: Seq<JobRecord<M>>, max: nat) -> Seq<JobRecord<M>>
    decreases s.len(),
{
    if s.len() > max && s.len() > 0 {
        evict_to(evict_once(s), max)
    } else {
        s
    }
}

/// The number of significant records.
pub open spec fn significant_count<M>(s: Seq<JobRecord<M>>) -> nat
    decreases s.len(),
{
    if s.len() == 0 {
        0
    } else {
        significant_count(s.drop_last()) + if significant(s.last()) {
            1nat
        } else {
            0nat
        }
    }
}

/// The warning stage of completing `job`: a warning for a slow or
/// over-budget job.
pub open spec fn slow_stage<M>(
    old: Seq<ProfilerDiagnostic>,
    mid: Seq<ProfilerDiagnostic>,
    job: JobRecord<M>,
    slow_detail: Seq<char>,
    at_unix_ms: u128,
    max: nat,
) -> bool {
    if job.facts.slow || job.facts.over_budget {
        diag_pushed(
            old,
            mid,
            "warn"@,
            "slow_or_over_budget_job"@,
            "job '"@ + job.name@ + "' category='"@ + job.category@ + "' "@ + slow_detail,
            Some(job.id@),
            at_unix_ms,
            max,
        )
    } else {
        mid == old
    }
}

/// The error stage of completing `job`: an error for a failed job.
pub open spec fn failed_stage<M>(
    mid: Seq<ProfilerDiagnostic>,
    new: Seq<ProfilerDiagnostic>,
    job: JobRecord<M>,
    at_unix_ms: u128,
    max: nat,
) -> bool {
    if job.status@ == "failed"@ {
        diag_pushed(
            mid,
            new,
            "error"@,
            "failed_job"@,
            "job '"@ + job.name@ + "' failed: "@ + (match job.error {
                Some(e) => e@,
                None => "<no error payload>"@,
            }),
            Some(job.id@),
            at_unix_ms,
            max,
        )
    } else {
        new == mid
    }
}

/// The diagnostics that completing `job` adds: a warning for a slow or
/// over-budget job, then an error for a failed one.
pub open spec fn completion_diags_ok<M>(
    old: Seq<ProfilerDiagnostic>,
    new: Seq<ProfilerDiagnostic>,
    job: JobRecord<M>,
    slow_detail: Seq<char>,
    at_unix_ms: u128,
    max: nat,
) -> bool {
    exists|mid: Seq<ProfilerDiagnostic>|
        #[trigger] slow_stage(old, mid, job, slow_detail, at_unix_ms, max) && failed_stage(
            mid,
            new,
            job,
            at_unix_ms,
            max,
        )
}

/// The record `job` is in the ring among its last 256 entries.
pub open spec fn recently_completed<M>(s: Seq<JobRecord<M>>, id: Seq<char>) -> bool {
    exists|i: int| s.len() - 256 <= i < s.len() && 0 <= i && #[trigger] s[i].id@ == id
}

impl ProfilerRuntime {
    /// Appends a diagnostic and drops the oldest ones beyond
    /// `max_recent_diagnostics`.
    pub fn push_diag_locked<M>(
        cfg: &ProfilerConfig,
        state: &mut ProfilerState<M>,
        level: &str,
        code: &str,
        message: String,
        task_id: Option<String>,
        at_unix_ms: u128,
    )
        ensures
            diag_pushed(
                old(state).diagnostics@,
                final(state).diagnostics@,
                level@,
                code@,
                message@,
                match task_id {
                    Some(t) => Some(t@),
                    None => None,
                },
                at_unix_ms,
                cfg.diagnostics.max_recent_diagnostics as nat,
            ),
            final(state).completed == old(state).completed,
            counters_kept(*old(state), *final(state)),
    {
        let d = ProfilerDiagnostic {
            level: level.to_owned(),
            code: code.to_owned(),
            message,
            job_id: task_id,
            at_unix_ms,
        };
        let ghost full = state.diagnostics@.push(d);
        state.diagnostics.push_back(d);
        let max = cfg.diagnostics.max_recent_diagnostics;
        while state.diagnostics.len() > max
            invariant
                state.diagnostics@ == full.skip(full.len() - state.diagnostics@.len()),
                state.diagnostics@.len() <= full.len(),
                state.diagnostics@.len() >= max || state.diagnostics@.len() == full.len(),
                state.completed == old(state).completed,
                counters_kept(*old(state), *state),
            decreases state.diagnostics@.len(),
        {
            let ghost before = state.diagnostics@;
            state.diagnostics.pop_front();
            assert(state.diagnostics@ =~= full.skip(full.len() - state.diagnostics@.len()));
        }
        assert(full.skip(0) =~= full);
        assert(diag_fields(d, level@, code@, message@, match task_id {
            Some(t) => Some(t@),
            None => None,
        }, at_unix_ms));
        assert(state.diagnostics@ == keep_last(full, max as nat));
    }

    /// Completes a job: classifies it, records a warning when it was slow
    /// or over budget (`slow_detail` renders its measurements) and an error
    /// when it failed, then appends it to the completed ring. Beyond
    /// `max_recent_jobs` records the oldest ordinary record leaves, or the
    /// oldest record where all are significant.
    pub fn complete_job_locked<M>(
        &self,
        state: &mut ProfilerState<M>,
        record: JobRecord<M>,
        slow_detail: &str,
        at_unix_ms: u128,
    )
        ensures
            exists|job: JobRecord<M>|
                {
                    &&& classified(record, job)
                    &&& #[trigger] final(state).completed@ == evict_to(
                        old(state).completed@.push(job),
                        self.cfg.diagnostics.max_recent_jobs as nat,
                    )
                    &&& completion_diags_ok(
                        old(state).diagnostics@,
                        final(state).diagnostics@,
                        job,
                        slow_detail@,
                        at_unix_ms,
                        self.cfg.diagnostics.max_recent_diagnostics as nat,
                    )
                },
            counters_kept(*old(state), *final(state)),
    {
        let ghost record0 = record;
        let mut record = record;
        refresh_record_classification(&mut record);
        let ghost job = record;
        let ghost diags0 = state.diagnostics@;
        let max_d = self.cfg.diagnostics.max_recent_diagnostics;
        let ghost slow_msg = "job '"@ + job.name@ + "' category='"@ + job.category@ + "' "@
            + slow_detail@;
        proof {
            reveal_strlit("job '");
            reveal_strlit("' category='");
            reveal_strlit("' ");
            reveal_strlit("' failed: ");
            reveal_strlit("<no error payload>");
        }
        if record.facts.slow || record.facts.over_budget {
            let mut msg = String::new();
            push_str(&mut msg, "job '");
            push_str(&mut msg, record.name.as_str());
            push_str(&mut msg, "' category='");
            push_str(&mut msg, record.category.as_str());
            push_str(&mut msg, "' ");
            push_str(&mut msg, slow_detail);
            assert(msg@ =~= slow_msg);
            Self::push_diag_locked(
                &self.cfg,
                state,
                "warn",
                "slow_or_over_budget_job",
                msg,
                Some(record.id.clone()),
                at_unix_ms,
            );
        }
        let ghost diags1 = state.diagnostics@;
        let failed = str_eq(record.status.as_str(), "failed");
        if failed {
            let mut msg = String::new();
            push_str(&mut msg, "job '");
            push_str(&mut msg, record.name.as_str());
            push_str(&mut msg, "' failed: ");
            match &record.error {
                Some(e) => push_str(&mut msg, e.as_str()),
                None => push_str(&mut msg, "<no error payload>"),
            }
            assert(msg@ =~= "job '"@ + job.name@ + "' failed: "@ + (match job.error {
                Some(e) => e@,
                None => "<no error payload>"@,
            }));
            Self::push_diag_locked(
                &self.cfg,
                state,
                "error",
                "failed_job",
                msg,
                Some(record.id.clone()),
                at_unix_ms,
            );
        }
        assert(slow_stage(diags0, diags1, job, slow_detail@, at_unix_ms, max_d as nat));
        assert(failed_stage(diags1, state.diagnostics@, job, at_unix_ms, max_d as nat));
        let ghost diags2 = state.diagnostics@;
        assert(completion_diags_ok(diags0, diags2, job, slow_detail@, at_unix_ms, max_d as nat));
        let ghost st1 = *state;
        let ghost pushed = state.completed@.push(record);
        state.completed.push_back(record);
        let max = self.cfg.diagnostics.max_recent_jobs;
        while state.completed.len() > max
            invariant
                evict_to(state.completed@, max as nat) == evict_to(pushed, max as nat),
                state.diagnostics@ == diags2,
                counters_kept(st1, *state),
            decreases state.completed@.len(),
        {
            let ghost s = state.completed@;
            let pos = first_ordinary_position(&state.completed);
            match pos {
                Some(p) => {
                    assert(is_first_ordinary(s, p as int));
                    proof {
                        lemma_first_ordinary_unique(s, p as int);
                    }
                    state.completed.remove(p);
                },
                None => {
                    state.completed.pop_front();
                    assert(state.completed@ =~= s.drop_first());
                },
            }
            assert(state.completed@ == evict_once(s));
        }
        assert(evict_to(state.completed@, max as nat) == state.completed@);
        assert(classified(record0, job));
    }
}

/// The position of the oldest ordinary record, if any.
fn first_ordinary_position<M>(s: &std::collections::VecDeque<JobRecord<M>>) -> (r: Option<usize>)
    ensures
        match r {
            Some(p) => is_first_ordinary(s@, p as int),
            None => forall|p: int| !is_first_ordinary(s@, p),
        },
{
    let mut i: usize = 0;
    while i < s.len()
        invariant
            i <= s@.len(),
            forall|j: int| 0 <= j < i ==> significant(#[trigger] s@[j]),
        decreases s@.len() - i,
    {
        if !is_significant_completed_job(&s[i]) {
            return Some(i);
        }
        i += 1;
    }
    proof {
        assert forall|p: int| !is_first_ordinary(s@, p) by {
            if 0 <= p < s@.len() {
                assert(significant(s@[p]));
            }
        }
    }
    None
}

proof fn lemma_first_ordinary_unique<M>(s: Seq<JobRecord<M>>, p: int)
    requires
        is_first_ordinary(s, p),
    ensures
        (choose|q: int| is_first_ordinary(s, q)) == p,
{
    let q = choose|q: int| is_first_ordinary(s, q);
    assert(is_first_ordinary(s, q));
    if q < p {
        assert(significant(s[q]));
    }
    if p < q {
        assert(significant(s[p]));
    }
}

/// Whether a completed record is significant: failed, slow, over budget,
/// over its frame budget, or waiting on the GPU.
pub fn is_significant_completed_job<M>(job: &JobRecord<M>) -> (r: bool)
    ensures
        r == significant(*job),
{
    proof {
        reveal_strlit("failed");
    }
    str_eq(job.status.as_str(), "failed") || job.facts.slow || job.facts.over_budget
        || job.exceeded_frame_budget || job.waited_on_gpu || job.facts.gpu_wait_positive
}

/// A failed job is never the one evicted while an ordinary record remains:
/// a record whose status is `failed` counts as significant, and one
/// eviction from a ring that still holds an ordinary record removes exactly
/// one record and keeps the failed one.
pub proof fn lemma_failed_job_outlives_ordinary<M>(s: Seq<JobRecord<M>>, i: int, k: int)
    requires
        0 <= i < s.len(),
        0 <= k < s.len(),
        s[i].status@ == "failed"@,
        !significant(s[k]),
    ensures
        significant(s[i]),
        evict_once(s).len() == s.len() - 1,
        evict_once(s).contains(s[i]),
{
    lemma_first_ordinary_exists(s, k);
    let p = choose|p: int| is_first_ordinary(s, p);
    assert(evict_once(s) == s.remove(p));
    assert(p != i);
    let t = s.remove(p);
    let j = if i < p {
        i
    } else {
        i - 1
    };
    assert(t[j] == s[i]);
}

/// What makes a completed record significant: it failed, was slow, was
/// over its budget, exceeded its frame budget, or waited on the GPU.
pub proof fn lemma_significant_records<M>(job: JobRecord<M>)
    ensures
        significant(job) <==> (job.status@ == "failed"@ || job.facts.slow || job.facts.over_budget
            || job.exceeded_frame_budget || job.waited_on_gpu || job.facts.gpu_wait_positive),
{
}

/// Whether a record with this id is among the last 256 completed records.
pub fn recently_completed_duplicate_terminal<M>(state: &ProfilerState<M>, id: &str) -> (r: bool)
    ensures
        r == recently_completed(state.completed@, id@),
{
    let n = state.completed.len();
    let start: usize = if n > 256 {
        n - 256
    } else {
        0
    };
    let target = chars_of(id);
    let mut i: usize = n;
    while i > start
        invariant
            start <= i <= n,
            n == state.completed@.len(),
            start == (if n > 256 {
                n - 256
            } else {
                0
            }),
            target@ == id@,
            forall|j: int| i <= j < n ==> #[trigger] state.completed@[j].id@ != id@,
        decreases i,
    {
        let c = chars_of(state.completed[i - 1].id.as_str());
        if crate::text::chars_eq(c.as_slice(), target.as_slice()) {
            assert(state.completed@[i - 1].id@ == id@);
            return true;
        }
        i -= 1;
    }
    false
}


proof fn lemma_count_remove<M>(s: Seq<JobRecord<M>>, p: int)
    requires
        0 <= p < s.len(),
    ensures
        significant_count(s) == significant_count(s.remove(p)) + if significant(s[p]) {
            1nat
        } else {
            0nat
        },
    decreases s.len(),
{
    if p == s.len() - 1 {
        assert(s.remove(p) =~= s.drop_last());
    } else {
        let t = s.remove(p);
        assert(t.drop_last() =~= s.drop_last().remove(p));
        assert(t.last() == s.last());
        lemma_count_remove(s.drop_last(), p);
    }
}

proof fn lemma_count_le_len<M>(s: Seq<JobRecord<M>>)
    ensures
        significant_count(s) <= s.len(),
        significant_count(s) == s.len() ==> forall|i: int|
            0 <= i < s.len() ==> significant(#[trigger] s[i]),
        (forall|i: int| 0 <= i < s.len() ==> significant(#[trigger] s[i])) ==> significant_count(s)
            == s.len(),
    decreases s.len(),
{
    if s.len() > 0 {
        lemma_count_le_len(s.drop_last());
        if forall|i: int| 0 <= i < s.len() ==> significant(#[trigger] s[i]) {
            assert forall|i: int| 0 <= i < s.drop_last().len() implies significant(
                #[trigger] s.drop_last()[i],
            ) by {
                assert(s.drop_last()[i] == s[i]);
            }
            assert(significant(s[s.len() - 1]));
        }
        assert forall|i: int| 0 <= i < s.len() && significant_count(s) == s.len() implies significant(
            #[trigger] s[i],
        ) by {
            if i < s.len() - 1 {
                assert(s[i] == s.drop_last()[i]);
            }
        }
    }
}

/// The completed ring is bounded: after evictions it holds
/// `min(len, max)` records.
pub proof fn lemma_evict_len<M>(s: Seq<JobRecord<M>>, max: nat)
    ensures
        evict_to(s, max).len() == if s.len() > max {
            max
        } else {
            s.len()
        },
    decreases s.len(),
{
    if s.len() > max && s.len() > 0 {
        let t = evict_once(s);
        if exists|p: int| is_first_ordinary(s, p) {
            let p = choose|p: int| is_first_ordinary(s, p);
            assert(t.len() == s.len() - 1);
        } else {
            assert(t.len() == s.len() - 1);
        }
        lemma_evict_len(t, max);
    }
}

/// Rare stalls survive a flood of healthy samples: while the significant
/// records (failed, slow, over budget, over the frame budget, waiting on
/// the GPU) fit in the ring, evictions remove only ordinary records, so
/// every significant record stays.
pub proof fn lemma_evict_keeps_significant<M>(s: Seq<JobRecord<M>>, max: nat, i: int)
    requires
        0 <= i < s.len(),
        significant(s[i]),
        significant_count(s) <= max,
    ensures
        evict_to(s, max).contains(s[i]),
    decreases s.len(),
{
    if s.len() > max && s.len() > 0 {
        lemma_count_le_len(s);
        assert(exists|p: int| is_first_ordinary(s, p)) by {
            assert(!(forall|k: int| 0 <= k < s.len() ==> significant(#[trigger] s[k])));
            let k = choose|k: int| 0 <= k < s.len() && !significant(#[trigger] s[k]);
            lemma_first_ordinary_exists(s, k);
        }
        let p = choose|p: int| is_first_ordinary(s, p);
        let t = s.remove(p);
        assert(evict_once(s) == t);
        lemma_count_remove(s, p);
        assert(p != i);
        let j = if i < p {
            i
        } else {
            i - 1
        };
        assert(t[j] == s[i]);
        lemma_evict_keeps_significant(t, max, j);
    } else {
        assert(s[i] == s[i]);
        assert(s.contains(s[i]));
    }
}

proof fn lemma_first_ordinary_exists<M>(s: Seq<JobRecord<M>>, k: int)
    requires
        0 <= k < s.len(),
        !significant(s[k]),
    ensures
        exists|p: int| is_first_ordinary(s, p),
    decreases k,
{
    if forall|j: int| 0 <= j < k ==> significant(#[trigger] s[j]) {
        assert(is_first_ordinary(s, k));
    } else {
        let j = choose|j: int| 0 <= j < k && !significant(#[trigger] s[j]);
        lemma_first_ordinary_exists(s, j);
    }
}

/// The diagnostic log is bounded by `max`, and keeps the newest entry
/// whenever `max` is not zero.
pub proof fn lemma_keep_last_bounded<T>(s: Seq<T>, x: T, max: nat)
    ensures
        keep_last(s.push(x), max).len() <= max || keep_last(s.push(x), max).len() == s.len() + 1,
        keep_last(s.push(x), max).len() <= s.len() + 1,
        max > 0 ==> keep_last(s.push(x), max).last() == x,
{
    let t = s.push(x);
    if t.len() > max && max > 0 {
        assert(t.skip(t.len() - max).last() == t.last());
    }
}

/// `new` is `old` after completing `record`: its classified form joins the
/// completed ring, with the warning and error that its completion owes.
#[verifier::opaque]
pub open spec fn completion_step<M>(
    max_jobs: nat,
    max_diags: nat,
    old: ProfilerState<M>,
    new: ProfilerState<M>,
    record: JobRecord<M>,
) -> bool {
    &&& exists|job: JobRecord<M>, detail: Seq<char>, t: u128|
        {
            &&& classified(record, job)
            &&& new.completed@ == evict_to(old.completed@.push(job), max_jobs)
            &&& #[trigger] completion_diags_ok(
                old.diagnostics@,
                new.diagnostics@,
                job,
                detail,
                t,
                max_diags,
            )
        }
    &&& counters_kept(old, new)
}

/// `new` is `old` after completing `records` one after the other, through
/// the states `states`.
pub open spec fn completion_chain<M>(
    max_jobs: nat,
    max_diags: nat,
    states: Seq<ProfilerState<M>>,
    records: Seq<JobRecord<M>>,
) -> bool {
    &&& states.len() == records.len() + 1
    &&& forall|k: int|
        0 <= k < records.len() ==> completion_step(
            max_jobs,
            max_diags,
            #[trigger] states[k],
            states[k + 1],
            records[k],
        )
}

/// `new` is `old` after completing `records` one after the other.
#[verifier::opaque]
pub open spec fn completions<M>(
    max_jobs: nat,
    max_diags: nat,
    old: ProfilerState<M>,
    new: ProfilerState<M>,
    records: Seq<JobRecord<M>>,
) -> bool {
    exists|states: Seq<ProfilerState<M>>|
        #[trigger] completion_chain(max_jobs, max_diags, states, records) && states[0] == old
            && states.last() == new
}

/// Completing nothing leaves the state as it is.
pub proof fn lemma_completions_none<M>(max_jobs: nat, max_diags: nat, s: ProfilerState<M>)
    ensures
        completions(max_jobs, max_diags, s, s, Seq::empty()),
{
    reveal(completions);
    let states = seq![s];
    assert(completion_chain(max_jobs, max_diags, states, Seq::<JobRecord<M>>::empty()));
}

/// One more completion extends a run of completions.
pub proof fn lemma_completions_push<M>(
    max_jobs: nat,
    max_diags: nat,
    old: ProfilerState<M>,
    mid: ProfilerState<M>,
    new: ProfilerState<M>,
    records: Seq<JobRecord<M>>,
    record: JobRecord<M>,
)
    requires
        completions(max_jobs, max_diags, old, mid, records),
        completion_step(max_jobs, max_diags, mid, new, record),
    ensures
        completions(max_jobs, max_diags, old, new, records.push(record)),
{
    reveal(completions);
    let states = choose|states: Seq<ProfilerState<M>>|
        #[trigger] completion_chain(max_jobs, max_diags, states, records) && states[0] == old
            && states.last() == mid;
    let st2 = states.push(new);
    let rs = records.push(record);
    assert forall|k: int| 0 <= k < rs.len() implies completion_step(
        max_jobs,
        max_diags,
        #[trigger] st2[k],
        st2[k + 1],
        rs[k],
    ) by {
        if k < records.len() {
            assert(st2[k] == states[k]);
            assert(st2[k + 1] == states[k + 1]);
            assert(rs[k] == records[k]);
        } else {
            assert(st2[k] == mid);
            assert(st2[k + 1] == new);
            assert(rs[k] == record);
        }
    }
    assert(completion_chain(max_jobs, max_diags, st2, rs));
}

/// Completions change nothing but the completed ring and the diagnostics.
pub proof fn lemma_completions_keep<M>(
    max_jobs: nat,
    max_diags: nat,
    old: ProfilerState<M>,
    new: ProfilerState<M>,
    records: Seq<JobRecord<M>>,
)
    requires
        completions(max_jobs, max_diags, old, new, records),
    ensures
        counters_kept(old, new),
{
    reveal(completions);
    let states = choose|states: Seq<ProfilerState<M>>|
        #[trigger] completion_chain(max_jobs, max_diags, states, records) && states[0] == old
            && states.last() == new;
    lemma_chain_keeps(max_jobs, max_diags, states, records, records.len() as int);
}

proof fn lemma_chain_keeps<M>(
    max_jobs: nat,
    max_diags: nat,
    states: Seq<ProfilerState<M>>,
    records: Seq<JobRecord<M>>,
    k: int,
)
    requires
        completion_chain(max_jobs, max_diags, states, records),
        0 <= k <= records.len(),
    ensures
        counters_kept(states[0], states[k]),
    decreases k,
{
    if k > 0 {
        lemma_chain_keeps(max_jobs, max_diags, states, records, k - 1);
        assert(completion_step(max_jobs, max_diags, states[k - 1], states[k], records[k - 1]));
        reveal(completion_step);
    }
}

} // verus!
