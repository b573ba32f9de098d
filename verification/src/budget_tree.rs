//! Normalized identifiers of the `runtime -> lane -> category` budget
//! pressure tree.
use vstd::prelude::*;

use std::collections::VecDeque;

use crate::grouping::{
    count_below, count_where, counts_where_upto, lemma_grouped_counts, group_by_keys, grouped, in_some_group, key_texts, lemma_grouped_sizes, lemma_grouped_unique, lemma_sizes_grow,
    lemma_same_groups, same_groups, sizes_upto, KeyGroup,
};
use crate::analysis::count_members;
use crate::records::JobRecord;
use crate::text::{push_str, 
    chars_of, is_alnum, is_ascii_alnum, is_ascii_upper, lower, string_of, strip_char, strip_chars, to_lower,
    trim_chars, trim_seq,
};

verus! {

/// Characters that a key keeps (lowercased): ASCII letters and digits,
/// `-`, `_` and `.`.
pub open spec fn key_keeps(c: char) -> bool {
    is_ascii_alnum(c) || c == '-' || c == '_' || c == '.'
}

/// Left-to-right key rewriting: kept characters are lowercased, each run of
/// other characters becomes a single `-`. `after_sep` tells whether the
/// previous character was such a separator.
pub open spec fn key_fold(s: Seq<char>, after_sep: bool) -> Seq<char>
    decreases s.len(),
{
    if s.len() == 0 {
        Seq::empty()
    } else if key_keeps(s[0]) {
        seq![lower(s[0])] + key_fold(s.drop_first(), false)
    } else if after_sep {
        key_fold(s.drop_first(), true)
    } else {
        seq!['-'] + key_fold(s.drop_first(), true)
    }
}

/// The key of a label: trimmed, rewritten by `key_fold`, stripped of
/// surrounding `-`; the fallback where nothing is left.
pub open spec fn normalized_key_spec(value: Seq<char>, fallback: Seq<char>) -> Seq<char> {
    let t = trim_seq(value);
    let k = strip_char(key_fold(t, false), '-');
    if t.len() == 0 || k.len() == 0 {
        fallback
    } else {
        k
    }
}

/// The display name of a label: trimmed, or the fallback when blank.
pub open spec fn normalized_label_spec(value: Seq<char>, fallback: Seq<char>) -> Seq<char> {
    let t = trim_seq(value);
    if t.len() == 0 {
        fallback
    } else {
        t
    }
}

proof fn lemma_key_fold_step(s: Seq<char>, i: int, after_sep: bool)
    requires
        0 <= i < s.len(),
    ensures
        key_fold(s.skip(i), after_sep) == (if key_keeps(s[i]) {
            seq![lower(s[i])] + key_fold(s.skip(i + 1), false)
        } else if after_sep {
            key_fold(s.skip(i + 1), true)
        } else {
            seq!['-'] + key_fold(s.skip(i + 1), true)
        }),
{
    assert(s.skip(i).drop_first() =~= s.skip(i + 1));
}

/// `key_fold` computed over characters.
pub fn key_fold_chars(v: &[char]) -> (r: Vec<char>)
    ensures
        r@ == key_fold(v@, false),
{
    let mut out: Vec<char> = Vec::new();
    let mut after_sep = false;
    let mut i: usize = 0;
    assert(v@.skip(0) =~= v@);
    while i < v.len()
        invariant
            i <= v.len(),
            out@ + key_fold(v@.skip(i as int), after_sep) == key_fold(v@, false),
        decreases v.len() - i,
    {
        let ch = v[i];
        proof {
            lemma_key_fold_step(v@, i as int, after_sep);
        }
        if is_alnum(ch) || ch == '-' || ch == '_' || ch == '.' {
            after_sep = false;
            let ghost before = out@;
            out.push(to_lower(ch));
            assert(out@ =~= before + seq![lower(ch)]);
            assert((before + seq![lower(ch)]) + key_fold(v@.skip(i + 1), false) =~= before + (seq![
                lower(ch),
            ] + key_fold(v@.skip(i + 1), false)));
        } else if after_sep {
        } else {
            after_sep = true;
            let ghost before = out@;
            out.push('-');
            assert(out@ =~= before + seq!['-']);
            assert((before + seq!['-']) + key_fold(v@.skip(i + 1), true) =~= before + (seq!['-']
                + key_fold(v@.skip(i + 1), true)));
        }
        i += 1;
    }
    assert(v@.skip(v.len() as int) =~= Seq::<char>::empty());
    assert(out@ + Seq::<char>::empty() =~= out@);
    out
}

/// The identifier segment of a lane or category: lowercase ASCII letters,
/// digits, `-`, `_` and `.`; each run of other characters becomes one `-`;
/// `fallback` where the label is blank or has no such character.
pub fn normalized_key(value: &str, fallback: &str) -> (r: String)
    ensures
        r@ == normalized_key_spec(value@, fallback@),
{
    let v = chars_of(value);
    let t = trim_chars(v.as_slice());
    if t.len() == 0 {
        return fallback.to_owned();
    }
    let folded = key_fold_chars(t.as_slice());
    let k = strip_chars(folded.as_slice(), '-');
    if k.len() == 0 {
        fallback.to_owned()
    } else {
        string_of(k.as_slice())
    }
}

/// The display name of a lane or category: the trimmed label, or `fallback`
/// where it is blank.
pub fn normalized_label(value: &str, fallback: &str) -> (r: String)
    ensures
        r@ == normalized_label_spec(value@, fallback@),
{
    let v = chars_of(value);
    let t = trim_chars(v.as_slice());
    if t.len() == 0 {
        fallback.to_owned()
    } else {
        string_of(t.as_slice())
    }
}


/// The lane key of a job: its normalized lane, `unspecified` by default.
pub open spec fn lane_key_of<M>(job: JobRecord<M>) -> Seq<char> {
    normalized_key_spec(job.lane@, "unspecified"@)
}

/// The category key of a job: its normalized category, `uncategorized` by
/// default.
pub open spec fn category_key_of<M>(job: JobRecord<M>) -> Seq<char> {
    normalized_key_spec(job.category@, "uncategorized"@)
}

/// The lane keys of all jobs.
pub open spec fn lane_keys<M>(jobs: Seq<JobRecord<M>>) -> Seq<Seq<char>> {
    jobs.map_values(|j: JobRecord<M>| lane_key_of(j))
}

/// The category keys of the jobs at the given positions.
pub open spec fn category_keys<M>(jobs: Seq<JobRecord<M>>, members: Seq<usize>) -> Seq<Seq<char>> {
    members.map_values(|m: usize| category_key_of(jobs[m as int]))
}

/// A category node: its key, id, display name, its positions in the lane's
/// member list, and the jobs at those positions.
pub struct BudgetCategory {
    pub key: String,
    pub id: String,
    pub name: String,
    pub positions: Vec<usize>,
    pub members: Vec<usize>,
    /// How many members the host found over their budget.
    pub over_budget_samples: usize,
}

/// A lane node: its key, id, display name, its jobs, and its categories.
pub struct BudgetLane {
    pub key: String,
    pub id: String,
    pub name: String,
    pub members: Vec<usize>,
    pub categories: Vec<BudgetCategory>,
    /// How many members the host found over their budget.
    pub over_budget_samples: usize,
}

/// The shape of the `runtime -> lane -> category` pressure tree: which
/// jobs every node aggregates. The measured, allowed and peak milliseconds
/// of a node are sums and maxima over its members.
pub struct BudgetTreeShape {
    pub id: String,
    pub name: String,
    pub sample_count: usize,
    /// How many jobs the host found over their budget.
    pub over_budget_samples: usize,
    pub lanes: Vec<BudgetLane>,
}

/// Lanes as key groups.
pub open spec fn lane_groups(lanes: Seq<BudgetLane>) -> Seq<KeyGroup> {
    lanes.map_values(|l: BudgetLane| KeyGroup { key: l.key, members: l.members })
}

/// Categories as key groups over lane positions.
pub open spec fn category_groups(cats: Seq<BudgetCategory>) -> Seq<KeyGroup> {
    cats.map_values(|c: BudgetCategory| KeyGroup { key: c.key, members: c.positions })
}

/// One category node of a lane is well formed.
pub open spec fn category_ok<M>(jobs: Seq<JobRecord<M>>, lane: BudgetLane, c: BudgetCategory) -> bool {
    &&& c.id@ == lane.id@ + "/"@ + c.key@
    &&& c.members@.len() == c.positions@.len()
    &&& c.over_budget_samples == count_members(jobs, c.members@, over_budget_fact())
    &&& forall|x: int|
        0 <= x < c.positions@.len() ==> c.members@[x] == lane.members@[#[trigger] c.positions@[x] as int]
    &&& c.positions@.len() > 0 ==> c.name@ == normalized_label_spec(
        jobs[lane.members@[c.positions@[0] as int] as int].category@,
        "Uncategorized"@,
    )
}

/// One lane node is well formed.
pub open spec fn lane_ok<M>(jobs: Seq<JobRecord<M>>, lane: BudgetLane) -> bool {
    &&& lane.id@ == "runtime/"@ + lane.key@
    &&& lane.over_budget_samples == count_members(jobs, lane.members@, over_budget_fact())
    &&& lane.members@.len() > 0 ==> lane.name@ == normalized_label_spec(
        jobs[lane.members@[0] as int].lane@,
        "Unspecified lane"@,
    )
    &&& grouped(category_keys(jobs, lane.members@), category_groups(lane.categories@))
    &&& forall|c: int|
        0 <= c < lane.categories@.len() ==> category_ok(jobs, lane, #[trigger] lane.categories@[c])
}

/// The tree groups the jobs by lane key, then each lane's jobs by category
/// key, in key order.
pub open spec fn budget_tree_ok<M>(jobs: Seq<JobRecord<M>>, tree: BudgetTreeShape) -> bool {
    &&& tree.id@ == "runtime"@
    &&& tree.name@ == "Runtime captured work"@
    &&& tree.sample_count == jobs.len()
    &&& tree.over_budget_samples == over_budget_total(jobs)
    &&& grouped(lane_keys(jobs), lane_groups(tree.lanes@))
    &&& forall|l: int| 0 <= l < tree.lanes@.len() ==> lane_ok(jobs, #[trigger] tree.lanes@[l])
}

/// A sample whose load, as the budget tree takes it, the host found at 1.0
/// or above.
pub open spec fn over_budget_fact<M>() -> spec_fn(JobRecord<M>) -> bool {
    |j: JobRecord<M>| j.facts.sample_over_budget
}

/// How many of the jobs the host found over their budget.
pub open spec fn over_budget_total<M>(jobs: Seq<JobRecord<M>>) -> nat
    decreases jobs.len(),
{
    if jobs.len() == 0 {
        0
    } else {
        over_budget_total(jobs.drop_last()) + if jobs.last().facts.sample_over_budget {
            1nat
        } else {
            0nat
        }
    }
}

fn count_over_budget<M>(jobs: &VecDeque<JobRecord<M>>, members: &Vec<usize>) -> (r: usize)
    requires
        forall|x: int| 0 <= x < members@.len() ==> (#[trigger] members@[x]) < jobs@.len(),
    ensures
        r == count_members(jobs@, members@, over_budget_fact()),
{
    let mut n: usize = 0;
    let mut x: usize = 0;
    while x < members.len()
        invariant
            x <= members@.len(),
            forall|y: int| 0 <= y < members@.len() ==> (#[trigger] members@[y]) < jobs@.len(),
            n == count_members(jobs@, members@.take(x as int), over_budget_fact()),
            n <= x,
        decreases members@.len() - x,
    {
        assert(members@.take(x + 1).drop_last() =~= members@.take(x as int));
        let m = members[x];
        if jobs[m].facts.sample_over_budget {
            n = n + 1;
        }
        x += 1;
    }
    assert(members@.take(members@.len() as int) =~= members@);
    n
}

fn total_over_budget<M>(jobs: &VecDeque<JobRecord<M>>) -> (r: usize)
    ensures
        r == over_budget_total(jobs@),
{
    let mut n: usize = 0;
    let mut i: usize = 0;
    while i < jobs.len()
        invariant
            i <= jobs@.len(),
            n == over_budget_total(jobs@.take(i as int)),
            n <= i,
        decreases jobs@.len() - i,
    {
        assert(jobs@.take(i + 1).drop_last() =~= jobs@.take(i as int));
        if jobs[i].facts.sample_over_budget {
            n = n + 1;
        }
        i += 1;
    }
    assert(jobs@.take(jobs@.len() as int) =~= jobs@);
    n
}

/// Builds the categories of one lane.
fn build_lane_categories<M>(
    jobs: &VecDeque<JobRecord<M>>,
    lane: &BudgetLane,
) -> (r: Vec<BudgetCategory>)
    requires
        forall|x: int| 0 <= x < lane.members@.len() ==> (#[trigger] lane.members@[x]) < jobs@.len(),
    ensures
        grouped(category_keys(jobs@, lane.members@), category_groups(r@)),
        forall|c: int| 0 <= c < r@.len() ==> category_ok(jobs@, *lane, #[trigger] r@[c]),
{
    let ghost ck = category_keys(jobs@, lane.members@);
    let mut keys: Vec<String> = Vec::new();
    let mut x: usize = 0;
    while x < lane.members.len()
        invariant
            x <= lane.members@.len(),
            forall|y: int| 0 <= y < lane.members@.len() ==> (#[trigger] lane.members@[y]) < jobs@.len(),
            key_texts(keys@) == ck.take(x as int),
            ck == category_keys(jobs@, lane.members@),
        decreases lane.members@.len() - x,
    {
        let m = lane.members[x];
        let k = normalized_key(jobs[m].category.as_str(), "uncategorized");
        let ghost kv = k@;
        let ghost before = keys@;
        keys.push(k);
        assert(ck[x as int] == kv);
        assert(key_texts(keys@) =~= key_texts(before).push(kv));
        assert(key_texts(keys@) =~= ck.take(x + 1));
        x += 1;
    }
    assert(ck.take(lane.members@.len() as int) =~= ck);
    let groups = group_by_keys(keys.as_slice());
    let mut out: Vec<BudgetCategory> = Vec::new();
    let mut g: usize = 0;
    while g < groups.len()
        invariant
            g <= groups@.len(),
            grouped(ck, groups@),
            ck == category_keys(jobs@, lane.members@),
            forall|y: int| 0 <= y < lane.members@.len() ==> (#[trigger] lane.members@[y]) < jobs@.len(),
            same_groups(category_groups(out@), groups@.take(g as int)),
            forall|c: int| 0 <= c < out@.len() ==> category_ok(jobs@, *lane, #[trigger] out@[c]),
        decreases groups@.len() - g,
    {
        let grp = &groups[g];
        let mut members: Vec<usize> = Vec::new();
        let mut y: usize = 0;
        while y < grp.members.len()
            invariant
                y <= grp.members@.len(),
                grp == groups@[g as int],
                g < groups@.len(),
                grouped(ck, groups@),
                ck.len() == lane.members@.len(),
                members@.len() == y,
                forall|z: int| 0 <= z < y ==> members@[z] == lane.members@[#[trigger] grp.members@[z] as int],
            decreases grp.members@.len() - y,
        {
            let pos = grp.members[y];
            assert(0 <= pos < ck.len());
            members.push(lane.members[pos]);
            y += 1;
        }
        let mut id = lane.id.clone();
        push_str(&mut id, "/");
        push_str(&mut id, grp.key.as_str());
        let first = lane.members[grp.members[0]];
        let name = normalized_label(jobs[first].category.as_str(), "Uncategorized");
        assert forall|z: int| 0 <= z < members@.len() implies (#[trigger] members@[z]) < jobs@.len() by {
            assert(0 <= grp.members@[z] < ck.len());
            assert(members@[z] == lane.members@[grp.members@[z] as int]);
        }
        let over_budget_samples = count_over_budget(jobs, &members);
        let c = BudgetCategory {
            key: grp.key.clone(),
            id,
            name,
            positions: grp.members.clone(),
            members,
            over_budget_samples,
        };
        let ghost before = out@;
        out.push(c);
        assert(same_groups(category_groups(out@), groups@.take(g + 1))) by {
            assert(category_groups(out@) =~= category_groups(before).push(KeyGroup { key: c.key, members: c.positions }));
        }
        g += 1;
    }
    assert(groups@.take(groups@.len() as int) =~= groups@);
    proof {
        assert forall|q: int| 0 <= q < groups@.len() implies (#[trigger] groups@[q]).key@ == category_groups(out@)[q].key@
            && groups@[q].members@ == category_groups(out@)[q].members@ by {
            assert(groups@.take(groups@.len() as int)[q] == groups@[q]);
        }
        lemma_same_groups(ck, groups@, category_groups(out@));
    }
    out
}

/// Groups jobs into the `runtime -> lane -> category` tree. Lanes are keyed
/// by the normalized lane (`unspecified` where blank), categories by the
/// normalized category (`uncategorized` where blank); keys are ordered and
/// each node is named after its first job's label. Every job is a member of
/// exactly one lane and one category of it.
pub fn build_work_budget_tree<M>(jobs: &VecDeque<JobRecord<M>>) -> (r: BudgetTreeShape)
    ensures
        budget_tree_ok(jobs@, r),
{
    let ghost lk = lane_keys(jobs@);
    let mut keys: Vec<String> = Vec::new();
    let mut i: usize = 0;
    while i < jobs.len()
        invariant
            i <= jobs@.len(),
            key_texts(keys@) == lk.take(i as int),
            lk == lane_keys(jobs@),
        decreases jobs@.len() - i,
    {
        let k = normalized_key(jobs[i].lane.as_str(), "unspecified");
        let ghost kv = k@;
        let ghost before = keys@;
        keys.push(k);
        assert(lk[i as int] == kv);
        assert(key_texts(keys@) =~= key_texts(before).push(kv));
        assert(key_texts(keys@) =~= lk.take(i + 1));
        i += 1;
    }
    assert(lk.take(jobs@.len() as int) =~= lk);
    let groups = group_by_keys(keys.as_slice());
    let mut lanes: Vec<BudgetLane> = Vec::new();
    let mut g: usize = 0;
    while g < groups.len()
        invariant
            g <= groups@.len(),
            grouped(lk, groups@),
            lk == lane_keys(jobs@),
            same_groups(lane_groups(lanes@), groups@.take(g as int)),
            forall|l: int| 0 <= l < lanes@.len() ==> lane_ok(jobs@, #[trigger] lanes@[l]),
        decreases groups@.len() - g,
    {
        let grp = &groups[g];
        let mut id = String::new();
        push_str(&mut id, "runtime/");
        push_str(&mut id, grp.key.as_str());
        let first = grp.members[0];
        assert(0 <= first < lk.len());
        let name = normalized_label(jobs[first].lane.as_str(), "Unspecified lane");
        let members = grp.members.clone();
        assert forall|x: int| 0 <= x < members@.len() implies (#[trigger] members@[x]) < jobs@.len() by {
            assert(members@[x] == groups@[g as int].members@[x]);
        }
        let over_budget_samples = count_over_budget(jobs, &members);
        let mut lane = BudgetLane {
            key: grp.key.clone(),
            id,
            name,
            members,
            categories: Vec::new(),
            over_budget_samples,
        };
        let cats = build_lane_categories(jobs, &lane);
        lane.categories = cats;
        let ghost before = lanes@;
        lanes.push(lane);
        assert(same_groups(lane_groups(lanes@), groups@.take(g + 1))) by {
            assert(lane_groups(lanes@) =~= lane_groups(before).push(KeyGroup { key: lane.key, members: lane.members }));
        }
        g += 1;
    }
    assert(groups@.take(groups@.len() as int) =~= groups@);
    proof {
        reveal_strlit("runtime");
        assert forall|q: int| 0 <= q < groups@.len() implies (#[trigger] groups@[q]).key@ == lane_groups(lanes@)[q].key@
            && groups@[q].members@ == lane_groups(lanes@)[q].members@ by {
            assert(groups@.take(groups@.len() as int)[q] == groups@[q]);
        }
        lemma_same_groups(lk, groups@, lane_groups(lanes@));
    }
    let over_budget_samples = total_over_budget(jobs);
    BudgetTreeShape {
        id: "runtime".to_owned(),
        name: "Runtime captured work".to_owned(),
        sample_count: jobs.len(),
        over_budget_samples,
        lanes,
    }
}


/// Every job contributes exactly once to each level of its ancestry: it is
/// a member of exactly one lane, once, and of exactly one category of that
/// lane, once.
pub proof fn lemma_budget_tree_exactly_once<M>(jobs: Seq<JobRecord<M>>, tree: BudgetTreeShape, i: int)
    requires
        budget_tree_ok(jobs, tree),
        0 <= i < jobs.len(),
    ensures
        exists|l: int, x: int|
            0 <= l < tree.lanes@.len() && 0 <= x < tree.lanes@[l].members@.len()
                && #[trigger] tree.lanes@[l].members@[x] == i as usize,
        forall|l1: int, x1: int, l2: int, x2: int|
            0 <= l1 < tree.lanes@.len() && 0 <= x1 < tree.lanes@[l1].members@.len() && 0 <= l2
                < tree.lanes@.len() && 0 <= x2 < tree.lanes@[l2].members@.len()
                && #[trigger] tree.lanes@[l1].members@[x1] == i as usize
                && #[trigger] tree.lanes@[l2].members@[x2] == i as usize ==> l1 == l2 && x1 == x2,
        forall|l: int, x: int|
            0 <= l < tree.lanes@.len() && 0 <= x < tree.lanes@[l].members@.len()
                && #[trigger] tree.lanes@[l].members@[x] == i as usize ==> {
                &&& exists|c: int, y: int|
                    0 <= c < tree.lanes@[l].categories@.len() && 0 <= y
                        < tree.lanes@[l].categories@[c].members@.len()
                        && #[trigger] tree.lanes@[l].categories@[c].members@[y] == i as usize
                &&& forall|c1: int, y1: int, c2: int, y2: int|
                    0 <= c1 < tree.lanes@[l].categories@.len() && 0 <= y1
                        < tree.lanes@[l].categories@[c1].members@.len() && 0 <= c2
                        < tree.lanes@[l].categories@.len() && 0 <= y2
                        < tree.lanes@[l].categories@[c2].members@.len()
                        && #[trigger] tree.lanes@[l].categories@[c1].members@[y1] == i as usize
                        && #[trigger] tree.lanes@[l].categories@[c2].members@[y2] == i as usize
                        ==> c1 == c2 && y1 == y2
            },
{
    let lg = lane_groups(tree.lanes@);
    let lk = lane_keys(jobs);
    assert(in_some_group(lg, i));
    let (l0, x0) = choose|l: int, x: int|
        0 <= l < lg.len() && 0 <= x < lg[l].members@.len() && #[trigger] lg[l].members@[x] == i as usize;
    assert(tree.lanes@[l0].members@[x0] == i as usize);
    assert forall|l1: int, x1: int, l2: int, x2: int|
        0 <= l1 < tree.lanes@.len() && 0 <= x1 < tree.lanes@[l1].members@.len() && 0 <= l2
            < tree.lanes@.len() && 0 <= x2 < tree.lanes@[l2].members@.len()
            && #[trigger] tree.lanes@[l1].members@[x1] == i as usize
            && #[trigger] tree.lanes@[l2].members@[x2] == i as usize implies l1 == l2 && x1 == x2 by {
        assert(lg[l1].members@[x1] == lg[l2].members@[x2]);
        lemma_grouped_unique(lk, lg, l1, x1, l2, x2);
    }
    assert forall|l: int, x: int|
        0 <= l < tree.lanes@.len() && 0 <= x < tree.lanes@[l].members@.len()
            && #[trigger] tree.lanes@[l].members@[x] == i as usize implies {
            &&& exists|c: int, y: int|
                0 <= c < tree.lanes@[l].categories@.len() && 0 <= y
                    < tree.lanes@[l].categories@[c].members@.len()
                    && #[trigger] tree.lanes@[l].categories@[c].members@[y] == i as usize
            &&& forall|c1: int, y1: int, c2: int, y2: int|
                0 <= c1 < tree.lanes@[l].categories@.len() && 0 <= y1
                    < tree.lanes@[l].categories@[c1].members@.len() && 0 <= c2
                    < tree.lanes@[l].categories@.len() && 0 <= y2
                    < tree.lanes@[l].categories@[c2].members@.len()
                    && #[trigger] tree.lanes@[l].categories@[c1].members@[y1] == i as usize
                    && #[trigger] tree.lanes@[l].categories@[c2].members@[y2] == i as usize
                    ==> c1 == c2 && y1 == y2
        } by {
        let lane = tree.lanes@[l];
        assert(lane_ok(jobs, lane));
        let cg = category_groups(lane.categories@);
        let ck = category_keys(jobs, lane.members@);
        assert(ck.len() == lane.members@.len());
        assert(lane.members@.len() == lane.members.len());
        assert((x as usize) as int == x);
        assert(in_some_group(cg, x));
        let (c0, y0) = choose|c: int, y: int|
            0 <= c < cg.len() && 0 <= y < cg[c].members@.len() && #[trigger] cg[c].members@[y] == x as usize;
        assert(category_ok(jobs, lane, lane.categories@[c0]));
        assert(cg[c0].members@ == lane.categories@[c0].positions@);
        assert(lane.categories@[c0].positions@[y0] == x as usize);
        assert(lane.categories@[c0].members@[y0] == lane.members@[lane.categories@[c0].positions@[y0] as int]);
        assert(lane.categories@[c0].members@[y0] == i as usize);
        assert forall|c1: int, y1: int, c2: int, y2: int|
            0 <= c1 < lane.categories@.len() && 0 <= y1 < lane.categories@[c1].members@.len() && 0
                <= c2 < lane.categories@.len() && 0 <= y2 < lane.categories@[c2].members@.len()
                && #[trigger] lane.categories@[c1].members@[y1] == i as usize
                && #[trigger] lane.categories@[c2].members@[y2] == i as usize implies c1 == c2 && y1
            == y2 by {
            let cat1 = lane.categories@[c1];
            let cat2 = lane.categories@[c2];
            assert(category_ok(jobs, lane, cat1));
            assert(category_ok(jobs, lane, cat2));
            assert(cg[c1].members@ == cat1.positions@);
            assert(cg[c2].members@ == cat2.positions@);
            let p1 = cat1.positions@[y1];
            let p2 = cat2.positions@[y2];
            assert(cat1.members@[y1] == lane.members@[p1 as int]);
            assert(cat2.members@[y2] == lane.members@[p2 as int]);
            assert(cg[c1].members@[y1] == p1);
            assert(cg[c2].members@[y2] == p2);
            assert(0 <= p1 < ck.len());
            assert(0 <= p2 < ck.len());
            assert(lane.members@[p1 as int] == i as usize);
            assert(lane.members@[p2 as int] == i as usize);
            assert(lg[l].members@ == lane.members@);
            if p1 < p2 {
                assert(lg[l].members@[p1 as int] < lg[l].members@[p2 as int]);
            } else if p2 < p1 {
                assert(lg[l].members@[p2 as int] < lg[l].members@[p1 as int]);
            }
            lemma_grouped_unique(ck, cg, c1, y1, c2, y2);
        }
    }
}

/// Every node of the budget tree counts the samples of its children
/// together: the root's count is the sum of its lanes' members, and each
/// lane's members number as many as its categories' members together.
pub proof fn lemma_budget_tree_counts<M>(jobs: Seq<JobRecord<M>>, tree: BudgetTreeShape)
    requires
        budget_tree_ok(jobs, tree),
        jobs.len() <= usize::MAX,
    ensures
        sizes_upto(lane_groups(tree.lanes@), tree.lanes@.len() as int) == tree.sample_count,
        forall|l: int|
            0 <= l < tree.lanes@.len() ==> sizes_upto(
                category_groups((#[trigger] tree.lanes@[l]).categories@),
                tree.lanes@[l].categories@.len() as int,
            ) == tree.lanes@[l].members@.len(),
{
    lemma_grouped_sizes(lane_keys(jobs), lane_groups(tree.lanes@));
    assert forall|l: int| 0 <= l < tree.lanes@.len() implies sizes_upto(
        category_groups((#[trigger] tree.lanes@[l]).categories@),
        tree.lanes@[l].categories@.len() as int,
    ) == tree.lanes@[l].members@.len() by {
        let lane = tree.lanes@[l];
        assert(lane_ok(jobs, lane));
        let lg = lane_groups(tree.lanes@);
        lemma_sizes_grow(lg, l + 1, tree.lanes@.len() as int);
        assert(lg[l].members@ == lane.members@);
        assert(lane.members@.len() <= usize::MAX);
        lemma_grouped_sizes(category_keys(jobs, lane.members@), category_groups(lane.categories@));
    }
}

/// The over-budget counts of the first `l` lanes, added up.
pub open spec fn lane_over_budget_upto(lanes: Seq<BudgetLane>, l: int) -> nat
    decreases l,
{
    if l <= 0 {
        0
    } else {
        lane_over_budget_upto(lanes, l - 1) + lanes[l - 1].over_budget_samples as nat
    }
}

/// The over-budget counts of the first `c` categories, added up.
pub open spec fn category_over_budget_upto(cats: Seq<BudgetCategory>, c: int) -> nat
    decreases c,
{
    if c <= 0 {
        0
    } else {
        category_over_budget_upto(cats, c - 1) + cats[c - 1].over_budget_samples as nat
    }
}

proof fn lemma_count_below_ext(n: int, q1: spec_fn(int) -> bool, q2: spec_fn(int) -> bool)
    requires
        forall|i: int| 0 <= i < n ==> #[trigger] q1(i) == q2(i),
    ensures
        count_below(n, q1) == count_below(n, q2),
    decreases n,
{
    if n > 0 {
        lemma_count_below_ext(n - 1, q1, q2);
    }
}

proof fn lemma_total_below<M>(jobs: Seq<JobRecord<M>>)
    ensures
        over_budget_total(jobs) == count_below(jobs.len() as int, |i: int| jobs[i].facts.sample_over_budget),
    decreases jobs.len(),
{
    if jobs.len() > 0 {
        let d = jobs.drop_last();
        lemma_total_below(d);
        lemma_count_below_ext(
            d.len() as int,
            |i: int| d[i].facts.sample_over_budget,
            |i: int| jobs[i].facts.sample_over_budget,
        );
    }
}

proof fn lemma_members_where<M>(jobs: Seq<JobRecord<M>>, s: Seq<usize>, p: spec_fn(JobRecord<M>) -> bool)
    ensures
        count_members(jobs, s, p) == count_where(s, |i: int| p(jobs[i])),
    decreases s.len(),
{
    if s.len() > 0 {
        lemma_members_where(jobs, s.drop_last(), p);
    }
}

proof fn lemma_members_below<M>(jobs: Seq<JobRecord<M>>, s: Seq<usize>, p: spec_fn(JobRecord<M>) -> bool)
    ensures
        count_members(jobs, s, p) == count_below(s.len() as int, |x: int| p(jobs[s[x] as int])),
    decreases s.len(),
{
    if s.len() > 0 {
        let d = s.drop_last();
        lemma_members_below(jobs, d, p);
        lemma_count_below_ext(
            d.len() as int,
            |x: int| p(jobs[d[x] as int]),
            |x: int| p(jobs[s[x] as int]),
        );
    }
}

proof fn lemma_members_through<M>(
    jobs: Seq<JobRecord<M>>,
    members: Seq<usize>,
    positions: Seq<usize>,
    base: Seq<usize>,
    p: spec_fn(JobRecord<M>) -> bool,
)
    requires
        members.len() == positions.len(),
        forall|x: int| 0 <= x < positions.len() ==> members[x] == base[#[trigger] positions[x] as int],
    ensures
        count_members(jobs, members, p) == count_where(positions, |y: int| p(jobs[base[y] as int])),
    decreases members.len(),
{
    if members.len() > 0 {
        let dm = members.drop_last();
        let dp = positions.drop_last();
        assert forall|x: int| 0 <= x < dp.len() implies dm[x] == base[#[trigger] dp[x] as int] by {
            assert(positions[x] == dp[x]);
        }
        lemma_members_through(jobs, dm, dp, base, p);
        assert(members[members.len() - 1] == base[positions[positions.len() - 1] as int]);
    }
}

proof fn lemma_lanes_where<M>(jobs: Seq<JobRecord<M>>, lanes: Seq<BudgetLane>, l: int)
    requires
        0 <= l <= lanes.len(),
        forall|k: int| 0 <= k < lanes.len() ==> lane_ok(jobs, #[trigger] lanes[k]),
    ensures
        counts_where_upto(lane_groups(lanes), |i: int| jobs[i].facts.sample_over_budget, l)
            == lane_over_budget_upto(lanes, l),
    decreases l,
{
    if l > 0 {
        lemma_lanes_where(jobs, lanes, l - 1);
        let lane = lanes[l - 1];
        assert(lane_ok(jobs, lane));
        lemma_members_where(jobs, lane.members@, over_budget_fact());
        assert(lane_groups(lanes)[l - 1].members@ == lane.members@);
        assert((|i: int| over_budget_fact::<M>()(jobs[i])) =~= (|i: int| jobs[i].facts.sample_over_budget));
    }
}

proof fn lemma_categories_where<M>(jobs: Seq<JobRecord<M>>, lane: BudgetLane, c: int)
    requires
        0 <= c <= lane.categories@.len(),
        forall|k: int| 0 <= k < lane.categories@.len() ==> category_ok(jobs, lane, #[trigger] lane.categories@[k]),
    ensures
        counts_where_upto(
            category_groups(lane.categories@),
            |y: int| jobs[lane.members@[y] as int].facts.sample_over_budget,
            c,
        ) == category_over_budget_upto(lane.categories@, c),
    decreases c,
{
    if c > 0 {
        lemma_categories_where(jobs, lane, c - 1);
        let cat = lane.categories@[c - 1];
        assert(category_ok(jobs, lane, cat));
        lemma_members_through(jobs, cat.members@, cat.positions@, lane.members@, over_budget_fact());
        assert(category_groups(lane.categories@)[c - 1].members@ == cat.positions@);
        assert((|y: int| over_budget_fact::<M>()(jobs[lane.members@[y] as int])) =~= (|y: int|
            jobs[lane.members@[y] as int].facts.sample_over_budget));
    }
}

/// A job found over its budget counts once at each level of the tree: the
/// lanes' over-budget counts add up to the root's, and the categories'
/// counts of a lane add up to the lane's.
pub proof fn lemma_budget_tree_over_budget<M>(jobs: Seq<JobRecord<M>>, tree: BudgetTreeShape)
    requires
        budget_tree_ok(jobs, tree),
        jobs.len() <= usize::MAX,
    ensures
        lane_over_budget_upto(tree.lanes@, tree.lanes@.len() as int) == tree.over_budget_samples,
        forall|l: int|
            0 <= l < tree.lanes@.len() ==> category_over_budget_upto(
                (#[trigger] tree.lanes@[l]).categories@,
                tree.lanes@[l].categories@.len() as int,
            ) == tree.lanes@[l].over_budget_samples,
{
    let q = |i: int| jobs[i].facts.sample_over_budget;
    lemma_lanes_where(jobs, tree.lanes@, tree.lanes@.len() as int);
    lemma_grouped_counts(lane_keys(jobs), lane_groups(tree.lanes@), q);
    lemma_total_below(jobs);
    lemma_budget_tree_counts(jobs, tree);
    assert forall|l: int| 0 <= l < tree.lanes@.len() implies category_over_budget_upto(
        (#[trigger] tree.lanes@[l]).categories@,
        tree.lanes@[l].categories@.len() as int,
    ) == tree.lanes@[l].over_budget_samples by {
        let lane = tree.lanes@[l];
        assert(lane_ok(jobs, lane));
        let lg = lane_groups(tree.lanes@);
        lemma_sizes_grow(lg, l + 1, tree.lanes@.len() as int);
        assert(lg[l].members@ == lane.members@);
        assert(lane.members@.len() <= usize::MAX);
        let ql = |y: int| jobs[lane.members@[y] as int].facts.sample_over_budget;
        lemma_categories_where(jobs, lane, lane.categories@.len() as int);
        lemma_grouped_counts(category_keys(jobs, lane.members@), category_groups(lane.categories@), ql);
        lemma_members_below(jobs, lane.members@, over_budget_fact());
        assert((|x: int| over_budget_fact::<M>()(jobs[lane.members@[x] as int])) =~= ql);
    }
}

/// A character of a key: a lowercase ASCII letter, a digit, `-`, `_` or
/// `.`.
pub open spec fn key_char(c: char) -> bool {
    key_keeps(c) && !is_ascii_upper(c)
}

proof fn lemma_key_fold_chars(s: Seq<char>, after_sep: bool)
    ensures
        forall|i: int| 0 <= i < key_fold(s, after_sep).len() ==> key_char(#[trigger] key_fold(s, after_sep)[i]),
    decreases s.len(),
{
    if s.len() > 0 {
        let t = s.drop_first();
        lemma_key_fold_chars(t, false);
        lemma_key_fold_chars(t, true);
        let f = key_fold(s, after_sep);
        if key_keeps(s[0]) {
            let c = s[0];
            assert(key_char(lower(c)));
            assert(f == seq![lower(c)] + key_fold(t, false));
            assert forall|i: int| 0 <= i < f.len() implies key_char(#[trigger] f[i]) by {
                if i > 0 {
                    assert(f[i] == key_fold(t, false)[i - 1]);
                }
            }
        } else if after_sep {
            assert(f == key_fold(t, true));
        } else {
            assert(f == seq!['-'] + key_fold(t, true));
            assert forall|i: int| 0 <= i < f.len() implies key_char(#[trigger] f[i]) by {
                if i > 0 {
                    assert(f[i] == key_fold(t, true)[i - 1]);
                }
            }
        }
    }
}

/// A key is the fallback, or a non-empty run of lowercase ASCII letters,
/// digits, `-`, `_` and `.` that neither starts nor ends with `-`.
pub proof fn lemma_normalized_key_shape(value: Seq<char>, fallback: Seq<char>)
    ensures
        ({
            let k = normalized_key_spec(value, fallback);
            ||| k == fallback
            ||| {
                &&& k.len() > 0
                &&& k[0] != '-'
                &&& k.last() != '-'
                &&& forall|i: int| 0 <= i < k.len() ==> key_char(#[trigger] k[i])
            }
        }),
{
    let t = trim_seq(value);
    let f = key_fold(t, false);
    lemma_key_fold_chars(t, false);
    let (a, b) = crate::text::lemma_strip_shape(f, '-');
    let k = strip_char(f, '-');
    assert forall|i: int| 0 <= i < k.len() implies key_char(#[trigger] k[i]) by {
        assert(k[i] == f[a + i]);
    }
}

} // verus!
