//! Grouping keys of the report: who owns a job, which method it ran, and
//! which offender it counts for.
use vstd::prelude::*;

use crate::metadata::{first_str, first_value_str, texts};
use crate::records::JobRecord;
use std::collections::VecDeque;

use crate::grouping::{
    group_by_keys, grouped, key_texts, lemma_grouped_sizes, lemma_same_groups, same_groups, sizes_upto,
    KeyGroup,
};
use crate::text::{chars_of, push_str, str_eq, trim_chars, trim_seq};

verus! {

pub open spec fn service_paths() -> Seq<Seq<char>> {
    seq![
        "/service_id"@,
        "/metadata/service_id"@,
        "/provider_service_id"@,
        "/metadata/provider_service_id"@,
    ]
}

pub open spec fn plugin_paths() -> Seq<Seq<char>> {
    seq!["/plugin_id"@, "/metadata/plugin_id"@, "/owner_plugin_id"@, "/metadata/owner_plugin_id"@]
}

pub open spec fn gateway_paths() -> Seq<Seq<char>> {
    seq!["/gateway"@, "/engine_gateway"@, "/metadata/gateway"@, "/metadata/engine_gateway"@]
}

pub open spec fn method_paths() -> Seq<Seq<char>> {
    seq!["/method"@, "/method_name"@, "/metadata/method"@, "/metadata/method_name"@]
}

/// The owner of a job: its service id, else `plugin:` and its plugin id,
/// else `gateway:` and its gateway, else `source:category`.
pub open spec fn owner_key_spec<M>(job: JobRecord<M>) -> Seq<char> {
    let m = job.metadata.entries@;
    match first_str(m, service_paths()) {
        Some(s) => s,
        None => match first_str(m, plugin_paths()) {
            Some(p) => "plugin:"@ + p,
            None => match first_str(m, gateway_paths()) {
                Some(g) => "gateway:"@ + g,
                None => job.source@ + ":"@ + job.category@,
            },
        },
    }
}

/// The method key: owner, `::`, and the method name or `<no-method>`.
pub open spec fn method_key_spec<M>(job: JobRecord<M>) -> Seq<char> {
    owner_key_spec(job) + "::"@ + match first_str(job.metadata.entries@, method_paths()) {
        Some(m) => m,
        None => "<no-method>"@,
    }
}

/// The offender key: owner, `::`, and the method name or the job's name.
pub open spec fn offender_key_spec<M>(job: JobRecord<M>) -> Seq<char> {
    owner_key_spec(job) + "::"@ + match first_str(job.metadata.entries@, method_paths()) {
        Some(m) => m,
        None => job.name@,
    }
}

/// The owner of a job, by service, plugin, gateway or source and category.
pub fn job_owner_key<M>(job: &JobRecord<M>) -> (r: String)
    ensures
        r@ == owner_key_spec(*job),
{
    let sp = ["/service_id", "/metadata/service_id", "/provider_service_id", "/metadata/provider_service_id"];
    let pp = ["/plugin_id", "/metadata/plugin_id", "/owner_plugin_id", "/metadata/owner_plugin_id"];
    let gp = ["/gateway", "/engine_gateway", "/metadata/gateway", "/metadata/engine_gateway"];
    assert(texts(sp@) =~= service_paths());
    assert(texts(pp@) =~= plugin_paths());
    assert(texts(gp@) =~= gateway_paths());
    if let Some(s) = first_value_str(&job.metadata, &sp) {
        return s;
    }
    if let Some(p) = first_value_str(&job.metadata, &pp) {
        let mut out = String::new();
        push_str(&mut out, "plugin:");
        push_str(&mut out, p.as_str());
        return out;
    }
    if let Some(g) = first_value_str(&job.metadata, &gp) {
        let mut out = String::new();
        push_str(&mut out, "gateway:");
        push_str(&mut out, g.as_str());
        return out;
    }
    let mut out = String::new();
    push_str(&mut out, job.source.as_str());
    push_str(&mut out, ":");
    push_str(&mut out, job.category.as_str());
    out
}

/// A job whose metadata names no service, plugin or gateway is owned by its
/// source and category: its owner key is the source, a colon, then the
/// category. So jobs of one source in different categories fall into
/// different owner groups.
pub proof fn lemma_owner_key_by_source_and_category<M>(a: JobRecord<M>, b: JobRecord<M>)
    requires
        first_str(a.metadata.entries@, service_paths()) is None,
        first_str(a.metadata.entries@, plugin_paths()) is None,
        first_str(a.metadata.entries@, gateway_paths()) is None,
        first_str(b.metadata.entries@, service_paths()) is None,
        first_str(b.metadata.entries@, plugin_paths()) is None,
        first_str(b.metadata.entries@, gateway_paths()) is None,
    ensures
        owner_key_spec(a) == a.source@ + ":"@ + a.category@,
        a.source@ == b.source@ && a.category@ != b.category@ ==> owner_key_spec(a) != owner_key_spec(b),
{
    if a.source@ == b.source@ && a.category@ != b.category@ {
        let ka = a.source@ + ":"@ + a.category@;
        let kb = b.source@ + ":"@ + b.category@;
        let n: int = (a.source@.len() + ":"@.len()) as int;
        if ka == kb {
            assert(ka.skip(n) =~= a.category@);
            assert(kb.skip(n) =~= b.category@);
        }
    }
}

/// Where the metadata names an origin, it owns the job: a service id is
/// the owner key itself; failing that, a plugin id is owned as
/// `plugin:<id>`; failing that, a gateway as `gateway:<name>`.
pub proof fn lemma_owner_key_by_origin<M>(job: JobRecord<M>)
    ensures
        first_str(job.metadata.entries@, service_paths()) is Some ==> owner_key_spec(job) == first_str(
            job.metadata.entries@,
            service_paths(),
        )->0,
        (first_str(job.metadata.entries@, service_paths()) is None && first_str(
            job.metadata.entries@,
            plugin_paths(),
        ) is Some) ==> owner_key_spec(job) == "plugin:"@ + first_str(job.metadata.entries@, plugin_paths())->0,
        (first_str(job.metadata.entries@, service_paths()) is None && first_str(
            job.metadata.entries@,
            plugin_paths(),
        ) is None && first_str(job.metadata.entries@, gateway_paths()) is Some) ==> owner_key_spec(job)
            == "gateway:"@ + first_str(job.metadata.entries@, gateway_paths())->0,
{
}

/// The method name of a job, where its metadata gives one.
fn job_method_name<M>(job: &JobRecord<M>) -> (r: Option<String>)
    ensures
        match r {
            Some(s) => first_str(job.metadata.entries@, method_paths()) == Some(s@),
            None => first_str(job.metadata.entries@, method_paths()) is None,
        },
{
    let mp = ["/method", "/method_name", "/metadata/method", "/metadata/method_name"];
    assert(texts(mp@) =~= method_paths());
    first_value_str(&job.metadata, &mp)
}

/// The method key of a job: `owner::method`, or `owner::<no-method>`.
pub fn job_method_key<M>(job: &JobRecord<M>) -> (r: String)
    ensures
        r@ == method_key_spec(*job),
{
    let mut out = job_owner_key(job);
    push_str(&mut out, "::");
    match job_method_name(job) {
        Some(m) => push_str(&mut out, m.as_str()),
        None => push_str(&mut out, "<no-method>"),
    }
    out
}

/// The offender key of a job: `owner::method`, or `owner::name`.
pub fn job_offender_key<M>(job: &JobRecord<M>) -> (r: String)
    ensures
        r@ == offender_key_spec(*job),
{
    let mut out = job_owner_key(job);
    push_str(&mut out, "::");
    match job_method_name(job) {
        Some(m) => push_str(&mut out, m.as_str()),
        None => push_str(&mut out, job.name.as_str()),
    }
    out
}


/// The dimensions by which the report groups completed jobs.
pub enum GroupKind {
    Category,
    Status,
    Source,
    Owner,
    Offender,
    Method,
    Lane,
}

/// The group key of a job in a dimension. A blank lane counts as
/// `unspecified`.
pub open spec fn group_key_of<M>(kind: GroupKind, job: JobRecord<M>) -> Seq<char> {
    match kind {
        GroupKind::Category => job.category@,
        GroupKind::Status => job.status@,
        GroupKind::Source => job.source@,
        GroupKind::Owner => owner_key_spec(job),
        GroupKind::Offender => offender_key_spec(job),
        GroupKind::Method => method_key_spec(job),
        GroupKind::Lane => if trim_seq(job.lane@).len() == 0 {
            "unspecified"@
        } else {
            job.lane@
        },
    }
}

/// The group keys of all jobs.
pub open spec fn group_keys<M>(kind: GroupKind, jobs: Seq<JobRecord<M>>) -> Seq<Seq<char>> {
    jobs.map_values(|j: JobRecord<M>| group_key_of(kind, j))
}

/// A failed job.
pub open spec fn is_failed<M>(job: JobRecord<M>) -> bool {
    job.status@ == "failed"@
}

/// A job that was slow or over its budget.
pub open spec fn is_slow<M>(job: JobRecord<M>) -> bool {
    job.facts.slow || job.facts.over_budget
}

/// The number of members with the property.
pub open spec fn count_members<M>(
    jobs: Seq<JobRecord<M>>,
    members: Seq<usize>,
    p: spec_fn(JobRecord<M>) -> bool,
) -> nat
    decreases members.len(),
{
    if members.len() == 0 {
        0
    } else {
        count_members(jobs, members.drop_last(), p) + if p(jobs[members.last() as int]) {
            1nat
        } else {
            0nat
        }
    }
}

/// One report group: its key, the first member's category, source and name
/// (the source group shows `*` for its category), its members, how many of
/// them failed or were slow or over budget, and their bytes.
pub struct AggregateGroup {
    pub key: String,
    pub category: String,
    pub source: String,
    pub sample_name: String,
    pub members: Vec<usize>,
    pub count: u64,
    pub failed: u64,
    pub slow: u64,
    /// The members' payload bytes, summed (saturating).
    pub total_payload_bytes: u64,
    /// The members' output bytes, summed (saturating).
    pub total_output_bytes: u64,
}

/// A field summed over the members, saturating at `u64::MAX`.
pub open spec fn member_total<M>(
    jobs: Seq<JobRecord<M>>,
    members: Seq<usize>,
    f: spec_fn(JobRecord<M>) -> Option<u64>,
) -> u64
    decreases members.len(),
{
    if members.len() == 0 {
        0
    } else {
        member_total(jobs, members.drop_last(), f).saturating_add(
            match f(jobs[members.last() as int]) {
                Some(v) => v,
                None => 0,
            },
        )
    }
}

/// Report groups as key groups.
pub open spec fn aggregate_key_groups(groups: Seq<AggregateGroup>) -> Seq<KeyGroup> {
    groups.map_values(|g: AggregateGroup| KeyGroup { key: g.key, members: g.members })
}

/// A report group's fields agree with its members.
pub open spec fn aggregate_ok<M>(kind: GroupKind, jobs: Seq<JobRecord<M>>, g: AggregateGroup) -> bool {
    &&& g.count == g.members@.len()
    &&& g.failed == count_members(jobs, g.members@, |j: JobRecord<M>| is_failed(j))
    &&& g.slow == count_members(jobs, g.members@, |j: JobRecord<M>| is_slow(j))
    &&& g.total_payload_bytes == member_total(jobs, g.members@, |j: JobRecord<M>| j.payload_bytes)
    &&& g.total_output_bytes == member_total(jobs, g.members@, |j: JobRecord<M>| j.output_bytes)
    &&& g.members@.len() > 0 ==> {
        let first = jobs[g.members@[0] as int];
        &&& g.category@ == (match kind {
            GroupKind::Source => "*"@,
            _ => first.category@,
        })
        &&& g.source@ == first.source@
        &&& g.sample_name@ == first.name@
    }
}

/// The group key of a job.
pub fn group_key<M>(kind: &GroupKind, job: &JobRecord<M>) -> (r: String)
    ensures
        r@ == group_key_of(*kind, *job),
{
    match kind {
        GroupKind::Category => job.category.clone(),
        GroupKind::Status => job.status.clone(),
        GroupKind::Source => job.source.clone(),
        GroupKind::Owner => job_owner_key(job),
        GroupKind::Offender => job_offender_key(job),
        GroupKind::Method => job_method_key(job),
        GroupKind::Lane => {
            let v = chars_of(job.lane.as_str());
            let t = trim_chars(v.as_slice());
            if t.len() == 0 {
                "unspecified".to_owned()
            } else {
                job.lane.clone()
            }
        },
    }
}

/// Counts the failed and the slow members of a group and sums their
/// payload and output bytes.
fn count_failed_slow<M>(jobs: &VecDeque<JobRecord<M>>, members: &Vec<usize>) -> (r: (u64, u64, u64, u64))
    requires
        forall|x: int| 0 <= x < members@.len() ==> (#[trigger] members@[x]) < jobs@.len(),
    ensures
        r.0 == count_members(jobs@, members@, |j: JobRecord<M>| is_failed(j)),
        r.1 == count_members(jobs@, members@, |j: JobRecord<M>| is_slow(j)),
        r.2 == member_total(jobs@, members@, |j: JobRecord<M>| j.payload_bytes),
        r.3 == member_total(jobs@, members@, |j: JobRecord<M>| j.output_bytes),
{
    let ghost pf = |j: JobRecord<M>| is_failed(j);
    let ghost ps = |j: JobRecord<M>| is_slow(j);
    let ghost fp = |j: JobRecord<M>| j.payload_bytes;
    let ghost fo = |j: JobRecord<M>| j.output_bytes;
    let mut failed: u64 = 0;
    let mut slow: u64 = 0;
    let mut payload: u64 = 0;
    let mut output: u64 = 0;
    let mut x: usize = 0;
    proof {
        reveal_strlit("failed");
    }
    while x < members.len()
        invariant
            x <= members@.len(),
            forall|y: int| 0 <= y < members@.len() ==> (#[trigger] members@[y]) < jobs@.len(),
            failed == count_members(jobs@, members@.take(x as int), pf),
            slow == count_members(jobs@, members@.take(x as int), ps),
            failed <= x,
            slow <= x,
            pf == (|j: JobRecord<M>| is_failed(j)),
            ps == (|j: JobRecord<M>| is_slow(j)),
            fp == (|j: JobRecord<M>| j.payload_bytes),
            fo == (|j: JobRecord<M>| j.output_bytes),
            payload == member_total(jobs@, members@.take(x as int), fp),
            output == member_total(jobs@, members@.take(x as int), fo),
        decreases members@.len() - x,
    {
        let m = members[x];
        assert(members@.take(x + 1).drop_last() =~= members@.take(x as int));
        let job = &jobs[m];
        if str_eq(job.status.as_str(), "failed") {
            failed = failed + 1;
        }
        if job.facts.slow || job.facts.over_budget {
            slow = slow + 1;
        }
        let pb = match job.payload_bytes {
            Some(v) => v,
            None => 0,
        };
        let ob = match job.output_bytes {
            Some(v) => v,
            None => 0,
        };
        payload = payload.saturating_add(pb);
        output = output.saturating_add(ob);
        x += 1;
    }
    assert(members@.take(members@.len() as int) =~= members@);
    (failed, slow, payload, output)
}

/// Groups the completed jobs of the report by one dimension, in key order,
/// with each group's members and its failed and slow counts.
pub fn group_jobs_by<M>(jobs: &VecDeque<JobRecord<M>>, kind: GroupKind) -> (r: Vec<AggregateGroup>)
    ensures
        grouped(group_keys(kind, jobs@), aggregate_key_groups(r@)),
        forall|g: int| 0 <= g < r@.len() ==> aggregate_ok(kind, jobs@, #[trigger] r@[g]),
{
    let ghost gk = group_keys(kind, jobs@);
    let mut keys: Vec<String> = Vec::new();
    let mut i: usize = 0;
    while i < jobs.len()
        invariant
            i <= jobs@.len(),
            key_texts(keys@) == gk.take(i as int),
            gk == group_keys(kind, jobs@),
        decreases jobs@.len() - i,
    {
        let k = group_key(&kind, &jobs[i]);
        let ghost kv = k@;
        let ghost before = keys@;
        keys.push(k);
        assert(gk[i as int] == kv);
        assert(key_texts(keys@) =~= key_texts(before).push(kv));
        assert(key_texts(keys@) =~= gk.take(i + 1));
        i += 1;
    }
    assert(gk.take(jobs@.len() as int) =~= gk);
    let groups = group_by_keys(keys.as_slice());
    let mut out: Vec<AggregateGroup> = Vec::new();
    let mut g: usize = 0;
    while g < groups.len()
        invariant
            g <= groups@.len(),
            grouped(gk, groups@),
            gk == group_keys(kind, jobs@),
            same_groups(aggregate_key_groups(out@), groups@.take(g as int)),
            forall|q: int| 0 <= q < out@.len() ==> aggregate_ok(kind, jobs@, #[trigger] out@[q]),
        decreases groups@.len() - g,
    {
        let grp = &groups[g];
        assert forall|x: int| 0 <= x < grp.members@.len() implies (#[trigger] grp.members@[x]) < jobs@.len() by {
            assert(grp.members@[x] == groups@[g as int].members@[x]);
        }
        let (failed, slow, total_payload_bytes, total_output_bytes) = count_failed_slow(
            jobs,
            &grp.members,
        );
        assert(grp.members@.len() > 0);
        assert(grp.members@[0] < jobs@.len());
        let idx0 = grp.members[0];
        let first = &jobs[idx0];
        let category = match kind {
            GroupKind::Source => "*".to_owned(),
            _ => first.category.clone(),
        };
        let members = grp.members.clone();
        let count = members.len() as u64;
        let a = AggregateGroup {
            key: grp.key.clone(),
            category,
            source: first.source.clone(),
            sample_name: first.name.clone(),
            members,
            count,
            failed,
            slow,
            total_payload_bytes,
            total_output_bytes,
        };
        let ghost before = out@;
        out.push(a);
        assert(same_groups(aggregate_key_groups(out@), groups@.take(g + 1))) by {
            assert(aggregate_key_groups(out@) =~= aggregate_key_groups(before).push(KeyGroup { key: a.key, members: a.members }));
        }
        g += 1;
    }
    proof {
        assert forall|q: int| 0 <= q < groups@.len() implies (#[trigger] groups@[q]).key@ == aggregate_key_groups(out@)[q].key@
            && groups@[q].members@ == aggregate_key_groups(out@)[q].members@ by {
            assert(groups@.take(groups@.len() as int)[q] == groups@[q]);
        }
        lemma_same_groups(gk, groups@, aggregate_key_groups(out@));
    }
    out
}

/// The counts of the first `g` report groups, added up.
pub open spec fn counts_upto(groups: Seq<AggregateGroup>, g: int) -> nat
    decreases g,
{
    if g <= 0 {
        0
    } else {
        counts_upto(groups, g - 1) + groups[g - 1].count as nat
    }
}

proof fn lemma_counts_are_sizes<M>(kind: GroupKind, jobs: Seq<JobRecord<M>>, groups: Seq<AggregateGroup>, g: int)
    requires
        0 <= g <= groups.len(),
        forall|q: int| 0 <= q < groups.len() ==> aggregate_ok(kind, jobs, #[trigger] groups[q]),
    ensures
        counts_upto(groups, g) == sizes_upto(aggregate_key_groups(groups), g),
    decreases g,
{
    if g > 0 {
        lemma_counts_are_sizes(kind, jobs, groups, g - 1);
        assert(aggregate_ok(kind, jobs, groups[g - 1]));
    }
}

/// The counts of a report grouping add up to the number of completed jobs:
/// in particular the report's counts by status sum to the length of the
/// completed history.
pub proof fn lemma_group_counts_sum<M>(
    kind: GroupKind,
    jobs: Seq<JobRecord<M>>,
    groups: Seq<AggregateGroup>,
)
    requires
        jobs.len() <= usize::MAX,
        grouped(group_keys(kind, jobs), aggregate_key_groups(groups)),
        forall|q: int| 0 <= q < groups.len() ==> aggregate_ok(kind, jobs, #[trigger] groups[q]),
    ensures
        counts_upto(groups, groups.len() as int) == jobs.len(),
{
    lemma_counts_are_sizes(kind, jobs, groups, groups.len() as int);
    lemma_grouped_sizes(group_keys(kind, jobs), aggregate_key_groups(groups));
}

} // verus!
