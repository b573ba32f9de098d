//! The CSV tables of a report that list jobs and diagnostics: their
//! columns, the fallbacks to a job's metadata, the rank column and the
//! offsets from the run's start. The figures in milliseconds are written by
//! the host and handed in as text.
use std::collections::VecDeque;

use vstd::prelude::*;

use crate::csv::{csv_header, csv_push, join_cells, rank, str_texts, string_texts};
use crate::metadata::{meta_get, MetaEntry, MetaValue, Metadata};
use crate::records::{JobRecord, ProfilerDiagnostic};
use crate::text::{chars_of, decimal, decimal_chars, str_eq, string_of, trim_chars, trim_seq};

verus! {

// ------------------------------------------------------------------ cells

/// The figures of one row, as the host formats them.
pub struct FigureCells {
    pub elapsed: String,
    pub budget: String,
    pub frame_budget: String,
    pub load: String,
    pub load_percent: String,
    pub over_budget: String,
    pub gpu_wait: String,
    pub progress: String,
    /// How far the elapsed time exceeds the frame budget.
    pub frame_excess: String,
}

/// An optional text, empty where absent.
pub open spec fn opt_text(o: Option<String>) -> Seq<char> {
    match o {
        Some(s) => s@,
        None => Seq::empty(),
    }
}

/// `true` or `false`.
pub open spec fn bool_text(b: bool) -> Seq<char> {
    if b {
        "true"@
    } else {
        "false"@
    }
}

/// An optional count in decimal, empty where absent.
pub open spec fn opt_count(o: Option<u64>) -> Seq<char> {
    match o {
        Some(n) => decimal(n as nat),
        None => Seq::empty(),
    }
}

/// An optional time in decimal, empty where absent.
pub open spec fn opt_time(o: Option<u128>) -> Seq<char> {
    match o {
        Some(n) => decimal(n as nat),
        None => Seq::empty(),
    }
}

/// A metadata value as a cell: a string as it is, a number as it is
/// written, a boolean as `true` or `false`; null, arrays and objects empty.
pub open spec fn scalar_text(v: MetaValue) -> Seq<char> {
    match v {
        MetaValue::Str(s) => s@,
        MetaValue::Number(t) => t@,
        MetaValue::Bool(b) => bool_text(b),
        _ => Seq::empty(),
    }
}

/// The cell of the first of `paths` present in the metadata; empty where
/// none is.
pub open spec fn meta_cell(es: Seq<MetaEntry>, paths: Seq<Seq<char>>) -> Seq<char>
    decreases paths.len(),
{
    if paths.len() == 0 {
        Seq::empty()
    } else {
        match meta_get(es, paths[0]) {
            Some(v) => scalar_text(v),
            None => meta_cell(es, paths.drop_first()),
        }
    }
}

/// The record's own text where it is not blank and not `null`; the
/// metadata's otherwise.
pub open spec fn direct_or_meta(direct: Seq<char>, es: Seq<MetaEntry>, paths: Seq<Seq<char>>) -> Seq<
    char,
> {
    if trim_seq(direct).len() > 0 && direct != "null"@ {
        direct
    } else {
        meta_cell(es, paths)
    }
}

/// The three places a job's metadata may give a field `key`.
pub open spec fn nested3(a: Seq<char>, b: Seq<char>, c: Seq<char>) -> Seq<Seq<char>> {
    seq![a, b, c]
}

fn text_cell(o: &Option<String>) -> (r: String)
    ensures
        r@ == opt_text(*o),
{
    match o {
        Some(s) => s.clone(),
        None => String::new(),
    }
}

fn bool_cell(b: bool) -> (r: String)
    ensures
        r@ == bool_text(b),
{
    if b {
        "true".to_owned()
    } else {
        "false".to_owned()
    }
}

fn count_cell(o: Option<u64>) -> (r: String)
    ensures
        r@ == opt_count(o),
{
    match o {
        Some(n) => {
            let d = decimal_chars(n);
            string_of(d.as_slice())
        },
        None => String::new(),
    }
}

fn decimal_u128_chars(n: u128) -> (r: Vec<char>)
    ensures
        r@ == decimal(n as nat),
    decreases n,
{
    let d: u8 = (n % 10) as u8 + 48;
    if n < 10 {
        let mut v: Vec<char> = Vec::new();
        v.push(d as char);
        v
    } else {
        let mut v = decimal_u128_chars(n / 10);
        v.push(d as char);
        v
    }
}

fn time_cell(n: u128) -> (r: String)
    ensures
        r@ == decimal(n as nat),
{
    let d = decimal_u128_chars(n);
    string_of(d.as_slice())
}

fn opt_time_cell(o: Option<u128>) -> (r: String)
    ensures
        r@ == opt_time(o),
{
    match o {
        Some(n) => time_cell(n),
        None => String::new(),
    }
}

fn scalar_cell(v: &MetaValue) -> (r: String)
    ensures
        r@ == scalar_text(*v),
{
    match v {
        MetaValue::Str(s) => s.clone(),
        MetaValue::Number(t) => t.clone(),
        MetaValue::Bool(b) => bool_cell(*b),
        _ => String::new(),
    }
}

/// The cell of the first of `paths` present in the metadata.
pub fn meta_cell_of(value: &Metadata, paths: &[&str]) -> (r: String)
    ensures
        r@ == meta_cell(value.entries@, str_texts(paths@)),
{
    let ghost all = str_texts(paths@);
    let mut i: usize = 0;
    assert(all.skip(0) =~= all);
    while i < paths.len()
        invariant
            i <= paths.len(),
            all == str_texts(paths@),
            meta_cell(value.entries@, all) == meta_cell(value.entries@, all.skip(i as int)),
        decreases paths.len() - i,
    {
        assert(all.skip(i as int).drop_first() =~= all.skip(i + 1));
        assert(all.skip(i as int)[0] == paths@[i as int]@);
        match value.get(paths[i]) {
            Some(v) => {
                return scalar_cell(&v);
            },
            None => {},
        }
        i += 1;
    }
    String::new()
}

fn meta3(value: &Metadata, a: &str, b: &str, c: &str) -> (r: String)
    ensures
        r@ == meta_cell(value.entries@, nested3(a@, b@, c@)),
{
    let paths: [&str; 3] = [a, b, c];
    assert(str_texts(paths@) =~= nested3(a@, b@, c@));
    meta_cell_of(value, &paths)
}

fn meta2(value: &Metadata, a: &str, b: &str) -> (r: String)
    ensures
        r@ == meta_cell(value.entries@, seq![a@, b@]),
{
    let paths: [&str; 2] = [a, b];
    assert(str_texts(paths@) =~= seq![a@, b@]);
    meta_cell_of(value, &paths)
}

fn direct2(direct: String, value: &Metadata, a: &str, b: &str) -> (r: String)
    ensures
        r@ == direct_or_meta(direct@, value.entries@, seq![a@, b@]),
{
    let d = chars_of(direct.as_str());
    let t = trim_chars(d.as_slice());
    if t.len() > 0 && !str_eq(direct.as_str(), "null") {
        direct
    } else {
        meta2(value, a, b)
    }
}

fn direct3(direct: String, value: &Metadata, a: &str, b: &str, c: &str) -> (r: String)
    ensures
        r@ == direct_or_meta(direct@, value.entries@, nested3(a@, b@, c@)),
{
    let d = chars_of(direct.as_str());
    let t = trim_chars(d.as_slice());
    if t.len() > 0 && !str_eq(direct.as_str(), "null") {
        direct
    } else {
        meta3(value, a, b, c)
    }
}

// ----------------------------------------------------------- table text

/// The rows, each its escaped cells joined by commas and ended by a newline.
pub open spec fn rows_text(rows: Seq<Seq<Seq<char>>>) -> Seq<char>
    decreases rows.len(),
{
    if rows.len() == 0 {
        Seq::empty()
    } else {
        rows_text(rows.drop_last()) + join_cells(rows.last(), true).push('\n')
    }
}

/// A table: the header line, then the rows.
pub open spec fn table_text(header: Seq<Seq<char>>, rows: Seq<Seq<Seq<char>>>) -> Seq<char> {
    join_cells(header, false).push('\n') + rows_text(rows)
}

proof fn lemma_rows_push(rows: Seq<Seq<Seq<char>>>, row: Seq<Seq<char>>)
    ensures
        rows_text(rows.push(row)) == rows_text(rows) + join_cells(row, true).push('\n'),
{
    assert(rows.push(row).drop_last() =~= rows);
}

// ------------------------------------------------------ completed jobs

/// The columns of the completed-jobs table.
pub open spec fn completed_header() -> Seq<Seq<char>> {
    seq![
        "id"@, "status"@, "category"@, "source"@, "lane"@, "priority"@, "dependency_group"@,
        "frame_id"@, "task_domain"@, "task_pass"@, "executor"@, "name"@, "elapsed_ms"@,
        "budget_ms"@, "frame_budget_ms"@, "load"@, "load_percent"@, "over_budget"@,
        "exceeded_frame_budget"@, "gpu_wait_ms"@, "wait_reason"@, "scheduled"@, "blocked"@,
        "polling"@, "waited_on_gpu"@, "stayed_async"@, "async_mode"@, "started_unix_ms"@,
        "ended_unix_ms"@, "payload_bytes"@, "output_bytes"@, "service_id"@, "method"@,
        "plugin_id"@, "gateway"@, "error"@, "detail"@,
    ]
}

/// A job's lane, priority, dependency group and frame id, each from the
/// record or else its metadata.
pub open spec fn placement_cells<M>(j: JobRecord<M>) -> Seq<Seq<char>> {
    let es = j.metadata.entries@;
    seq![
        direct_or_meta(j.lane@, es, nested3("/lane"@, "/event/lane"@, "/metadata/lane"@)),
        direct_or_meta(
            j.priority@,
            es,
            nested3("/priority"@, "/event/priority"@, "/metadata/priority"@),
        ),
        direct_or_meta(
            j.dependency_group@,
            es,
            nested3("/dependency_group"@, "/event/dependency_group"@, "/metadata/dependency_group"@),
        ),
        direct_or_meta(
            opt_count(j.frame_id),
            es,
            nested3("/frame_id"@, "/event/frame_id"@, "/metadata/frame_id"@),
        ),
    ]
}

/// A job's task domain, task pass and executor, from its metadata.
pub open spec fn task_cells<M>(j: JobRecord<M>) -> Seq<Seq<char>> {
    let es = j.metadata.entries@;
    seq![
        meta_cell(es, nested3("/task_domain"@, "/event/task_domain"@, "/metadata/task_domain"@)),
        meta_cell(es, nested3("/task_pass"@, "/event/task_pass"@, "/metadata/task_pass"@)),
        meta_cell(es, nested3("/executor"@, "/event/executor"@, "/metadata/executor"@)),
    ]
}

/// The service, method, plugin and gateway a job's metadata names.
pub open spec fn origin_cells<M>(j: JobRecord<M>) -> Seq<Seq<char>> {
    let es = j.metadata.entries@;
    seq![
        meta_cell(es, seq!["/service_id"@, "/metadata/service_id"@]),
        meta_cell(es, nested3("/method"@, "/method_name"@, "/metadata/method"@)),
        meta_cell(es, seq!["/plugin_id"@, "/metadata/plugin_id"@]),
        meta_cell(es, nested3("/gateway"@, "/engine_gateway"@, "/metadata/gateway"@)),
    ]
}

/// A row of the completed-jobs table.
pub open spec fn completed_row<M>(j: JobRecord<M>, f: FigureCells) -> Seq<Seq<char>> {
    seq![j.id@, j.status@, j.category@, j.source@] + placement_cells(j) + task_cells(j) + seq![
        j.name@,
        f.elapsed@,
        f.budget@,
        f.frame_budget@,
        f.load@,
        f.load_percent@,
        f.over_budget@,
        bool_text(j.exceeded_frame_budget),
        f.gpu_wait@,
        opt_text(j.wait_reason),
        bool_text(j.scheduled),
        bool_text(j.blocked),
        bool_text(j.polling),
        bool_text(j.waited_on_gpu),
        bool_text(j.stayed_async),
        opt_text(j.async_mode),
        decimal(j.started_unix_ms as nat),
        opt_time(j.ended_unix_ms),
        opt_count(j.payload_bytes),
        opt_count(j.output_bytes),
    ] + origin_cells(j) + seq![opt_text(j.error), j.detail@]
}

fn placement_vec<M>(j: &JobRecord<M>) -> (r: Vec<String>)
    ensures
        string_texts(r@) == placement_cells(*j),
{
    let v = vec![
        direct3(j.lane.clone(), &j.metadata, "/lane", "/event/lane", "/metadata/lane"),
        direct3(j.priority.clone(), &j.metadata, "/priority", "/event/priority", "/metadata/priority"),
        direct3(
            j.dependency_group.clone(),
            &j.metadata,
            "/dependency_group",
            "/event/dependency_group",
            "/metadata/dependency_group",
        ),
        direct3(count_cell(j.frame_id), &j.metadata, "/frame_id", "/event/frame_id", "/metadata/frame_id"),
    ];
    assert(string_texts(v@) =~= placement_cells(*j));
    v
}

fn task_vec<M>(j: &JobRecord<M>) -> (r: Vec<String>)
    ensures
        string_texts(r@) == task_cells(*j),
{
    let v = vec![
        meta3(&j.metadata, "/task_domain", "/event/task_domain", "/metadata/task_domain"),
        meta3(&j.metadata, "/task_pass", "/event/task_pass", "/metadata/task_pass"),
        meta3(&j.metadata, "/executor", "/event/executor", "/metadata/executor"),
    ];
    assert(string_texts(v@) =~= task_cells(*j));
    v
}

fn origin_vec<M>(j: &JobRecord<M>) -> (r: Vec<String>)
    ensures
        string_texts(r@) == origin_cells(*j),
{
    let v = vec![
        meta2(&j.metadata, "/service_id", "/metadata/service_id"),
        meta3(&j.metadata, "/method", "/method_name", "/metadata/method"),
        meta2(&j.metadata, "/plugin_id", "/metadata/plugin_id"),
        meta3(&j.metadata, "/gateway", "/engine_gateway", "/metadata/gateway"),
    ];
    assert(string_texts(v@) =~= origin_cells(*j));
    v
}

fn append_cells(out: &mut Vec<String>, more: Vec<String>)
    ensures
        string_texts(final(out)@) == string_texts(old(out)@) + string_texts(more@),
{
    let mut more = more;
    let ghost a = out@;
    let ghost b = more@;
    out.append(&mut more);
    assert(out@ =~= a + b);
    assert(string_texts(a + b) =~= string_texts(a) + string_texts(b));
}

fn completed_vec<M>(j: &JobRecord<M>, f: &FigureCells) -> (r: Vec<String>)
    ensures
        string_texts(r@) == completed_row(*j, *f),
{
    let mut v = vec![j.id.clone(), j.status.clone(), j.category.clone(), j.source.clone()];
    assert(string_texts(v@) =~= seq![j.id@, j.status@, j.category@, j.source@]);
    append_cells(&mut v, placement_vec(j));
    append_cells(&mut v, task_vec(j));
    let mid = vec![
        j.name.clone(),
        f.elapsed.clone(),
        f.budget.clone(),
        f.frame_budget.clone(),
        f.load.clone(),
        f.load_percent.clone(),
        f.over_budget.clone(),
        bool_cell(j.exceeded_frame_budget),
        f.gpu_wait.clone(),
        text_cell(&j.wait_reason),
        bool_cell(j.scheduled),
        bool_cell(j.blocked),
        bool_cell(j.polling),
        bool_cell(j.waited_on_gpu),
        bool_cell(j.stayed_async),
        text_cell(&j.async_mode),
        time_cell(j.started_unix_ms),
        opt_time_cell(j.ended_unix_ms),
        count_cell(j.payload_bytes),
        count_cell(j.output_bytes),
    ];
    assert(string_texts(mid@) =~= seq![
        j.name@,
        f.elapsed@,
        f.budget@,
        f.frame_budget@,
        f.load@,
        f.load_percent@,
        f.over_budget@,
        bool_text(j.exceeded_frame_budget),
        f.gpu_wait@,
        opt_text(j.wait_reason),
        bool_text(j.scheduled),
        bool_text(j.blocked),
        bool_text(j.polling),
        bool_text(j.waited_on_gpu),
        bool_text(j.stayed_async),
        opt_text(j.async_mode),
        decimal(j.started_unix_ms as nat),
        opt_time(j.ended_unix_ms),
        opt_count(j.payload_bytes),
        opt_count(j.output_bytes),
    ]);
    append_cells(&mut v, mid);
    append_cells(&mut v, origin_vec(j));
    let tail = vec![text_cell(&j.error), j.detail.clone()];
    assert(string_texts(tail@) =~= seq![opt_text(j.error), j.detail@]);
    append_cells(&mut v, tail);
    v
}

/// The completed-jobs table: one row per completed job, in order, with the
/// host's figures for that job.
pub fn completed_jobs_table<M>(jobs: &VecDeque<JobRecord<M>>, cells: &Vec<FigureCells>) -> (r:
    String)
    requires
        cells@.len() == jobs@.len(),
    ensures
        r@ == table_text(
            completed_header(),
            Seq::new(jobs@.len(), |i: int| completed_row(jobs@[i], cells@[i])),
        ),
{
    let cols: [&str; 37] = [
            "id",
            "status",
            "category",
            "source",
            "lane",
            "priority",
            "dependency_group",
            "frame_id",
            "task_domain",
            "task_pass",
            "executor",
            "name",
            "elapsed_ms",
            "budget_ms",
            "frame_budget_ms",
            "load",
            "load_percent",
            "over_budget",
            "exceeded_frame_budget",
            "gpu_wait_ms",
            "wait_reason",
            "scheduled",
            "blocked",
            "polling",
            "waited_on_gpu",
            "stayed_async",
            "async_mode",
            "started_unix_ms",
            "ended_unix_ms",
            "payload_bytes",
            "output_bytes",
            "service_id",
            "method",
            "plugin_id",
            "gateway",
            "error",
            "detail",
        ];
    assert(str_texts(cols@) =~= completed_header());
    let mut out = csv_header(&cols);
    let ghost header = out@;
    assert(header == join_cells(completed_header(), false).push('\n'));
    let ghost rows = Seq::new(jobs@.len(), |i: int| completed_row(jobs@[i], cells@[i]));
    let mut i: usize = 0;
    assert(rows.take(0) =~= Seq::<Seq<Seq<char>>>::empty());
    while i < jobs.len()
        invariant
            i <= jobs@.len(),
            cells@.len() == jobs@.len(),
            rows == Seq::new(jobs@.len(), |i: int| completed_row(jobs@[i], cells@[i])),
            out@ == header + rows_text(rows.take(i as int)),
            header == join_cells(completed_header(), false).push('\n'),
        decreases jobs@.len() - i,
    {
        let row = completed_vec(&jobs[i], &cells[i]);
        csv_push(&mut out, row.as_slice());
        proof {
            lemma_rows_push(rows.take(i as int), rows[i as int]);
            assert(rows.take(i + 1) =~= rows.take(i as int).push(rows[i as int]));
        }
        i += 1;
    }
    assert(rows.take(jobs@.len() as int) =~= rows);
    out
}

// ---------------------------------------------------- budget violations

/// The columns of the budget-violations table.
pub open spec fn violations_header() -> Seq<Seq<char>> {
    seq![
        "rank"@, "id"@, "status"@, "category"@, "source"@, "lane"@, "priority"@,
        "dependency_group"@, "frame_id"@, "task_domain"@, "task_pass"@, "executor"@, "name"@,
        "elapsed_ms"@, "budget_ms"@, "frame_budget_ms"@, "load"@, "load_percent"@,
        "exceeded_frame_budget"@, "gpu_wait_ms"@, "wait_reason"@, "stayed_async"@,
        "async_mode"@, "started_unix_ms"@, "ended_unix_ms"@, "service_id"@, "method"@,
        "plugin_id"@, "gateway"@, "error"@, "detail"@,
    ]
}

/// The row of rank `k + 1` of the budget-violations table.
pub open spec fn violation_row<M>(k: nat, j: JobRecord<M>, f: FigureCells) -> Seq<Seq<char>> {
    seq![decimal(k + 1), j.id@, j.status@, j.category@, j.source@] + placement_cells(j) + task_cells(
        j,
    ) + seq![
        j.name@,
        f.elapsed@,
        f.budget@,
        f.frame_budget@,
        f.load@,
        f.load_percent@,
        bool_text(j.exceeded_frame_budget),
        f.gpu_wait@,
        opt_text(j.wait_reason),
        bool_text(j.stayed_async),
        opt_text(j.async_mode),
        decimal(j.started_unix_ms as nat),
        opt_time(j.ended_unix_ms),
    ] + origin_cells(j) + seq![opt_text(j.error), j.detail@]
}

/// Every row of the completed-jobs table has one cell per column, and so
/// has every row of the budget-violations table, which starts with the
/// row's rank and the job's id.
pub proof fn lemma_rows_fit_headers<M>(k: nat, j: JobRecord<M>, f: FigureCells)
    ensures
        completed_row(j, f).len() == completed_header().len(),
        completed_header().len() == 37,
        violation_row(k, j, f).len() == violations_header().len(),
        violations_header().len() == 31,
        violation_row(k, j, f)[0] == decimal(k + 1),
        violation_row(k, j, f)[1] == j.id@,
{
}

fn violation_vec<M>(k: usize, j: &JobRecord<M>, f: &FigureCells) -> (r: Vec<String>)
    requires
        k < usize::MAX,
    ensures
        string_texts(r@) == violation_row(k as nat, *j, *f),
{
    let mut v = vec![rank(k), j.id.clone(), j.status.clone(), j.category.clone(), j.source.clone()];
    assert(string_texts(v@) =~= seq![decimal(k as nat + 1), j.id@, j.status@, j.category@, j.source@]);
    append_cells(&mut v, placement_vec(j));
    append_cells(&mut v, task_vec(j));
    let mid = vec![
        j.name.clone(),
        f.elapsed.clone(),
        f.budget.clone(),
        f.frame_budget.clone(),
        f.load.clone(),
        f.load_percent.clone(),
        bool_cell(j.exceeded_frame_budget),
        f.gpu_wait.clone(),
        text_cell(&j.wait_reason),
        bool_cell(j.stayed_async),
        text_cell(&j.async_mode),
        time_cell(j.started_unix_ms),
        opt_time_cell(j.ended_unix_ms),
    ];
    assert(string_texts(mid@) =~= seq![
        j.name@,
        f.elapsed@,
        f.budget@,
        f.frame_budget@,
        f.load@,
        f.load_percent@,
        bool_text(j.exceeded_frame_budget),
        f.gpu_wait@,
        opt_text(j.wait_reason),
        bool_text(j.stayed_async),
        opt_text(j.async_mode),
        decimal(j.started_unix_ms as nat),
        opt_time(j.ended_unix_ms),
    ]);
    append_cells(&mut v, mid);
    append_cells(&mut v, origin_vec(j));
    let tail = vec![text_cell(&j.error), j.detail.clone()];
    assert(string_texts(tail@) =~= seq![opt_text(j.error), j.detail@]);
    append_cells(&mut v, tail);
    v
}

/// The budget-violations table: the jobs at `positions`, in that order
/// (the host ranks them), each with its rank and the host's figures.
pub fn budget_violations_table<M>(
    jobs: &VecDeque<JobRecord<M>>,
    positions: &Vec<usize>,
    cells: &Vec<FigureCells>,
) -> (r: String)
    requires
        cells@.len() == positions@.len(),
        forall|k: int| 0 <= k < positions@.len() ==> #[trigger] positions@[k] < jobs@.len(),
    ensures
        r@ == table_text(
            violations_header(),
            Seq::new(
                positions@.len(),
                |k: int| violation_row(k as nat, jobs@[positions@[k] as int], cells@[k]),
            ),
        ),
{
    let cols: [&str; 31] = [
        "rank",
        "id",
        "status",
        "category",
        "source",
        "lane",
        "priority",
        "dependency_group",
        "frame_id",
        "task_domain",
        "task_pass",
        "executor",
        "name",
        "elapsed_ms",
        "budget_ms",
        "frame_budget_ms",
        "load",
        "load_percent",
        "exceeded_frame_budget",
        "gpu_wait_ms",
        "wait_reason",
        "stayed_async",
        "async_mode",
        "started_unix_ms",
        "ended_unix_ms",
        "service_id",
        "method",
        "plugin_id",
        "gateway",
        "error",
        "detail",
    ];
    assert(str_texts(cols@) =~= violations_header());
    let mut out = csv_header(&cols);
    let ghost header = out@;
    let ghost rows = Seq::new(
        positions@.len(),
        |k: int| violation_row(k as nat, jobs@[positions@[k] as int], cells@[k]),
    );
    let mut i: usize = 0;
    assert(rows.take(0) =~= Seq::<Seq<Seq<char>>>::empty());
    while i < positions.len()
        invariant
            i <= positions@.len(),
            cells@.len() == positions@.len(),
            forall|k: int| 0 <= k < positions@.len() ==> #[trigger] positions@[k] < jobs@.len(),
            rows == Seq::new(
                positions@.len(),
                |k: int| violation_row(k as nat, jobs@[positions@[k] as int], cells@[k]),
            ),
            out@ == header + rows_text(rows.take(i as int)),
            header == join_cells(violations_header(), false).push('\n'),
        decreases positions@.len() - i,
    {
        let p = positions[i];
        assert(p == positions@[i as int]);
        let row = violation_vec(i, &jobs[p], &cells[i]);
        csv_push(&mut out, row.as_slice());
        proof {
            lemma_rows_push(rows.take(i as int), rows[i as int]);
            assert(rows.take(i + 1) =~= rows.take(i as int).push(rows[i as int]));
        }
        i += 1;
    }
    assert(rows.take(positions@.len() as int) =~= rows);
    out
}

// ------------------------------------------------------------ active jobs

/// The columns of the active-jobs table.
pub open spec fn active_header() -> Seq<Seq<char>> {
    seq![
        "id"@, "status"@, "category"@, "source"@, "lane"@, "priority"@, "dependency_group"@,
        "frame_id"@, "task_domain"@, "task_pass"@, "executor"@, "name"@, "active_elapsed_ms"@,
        "budget_ms"@, "frame_budget_ms"@, "current_load"@, "current_load_percent"@,
        "current_over_budget"@, "progress"@, "blocked"@, "polling"@, "waited_on_gpu"@,
        "stayed_async"@, "gpu_wait_ms"@, "wait_reason"@, "async_mode"@, "started_unix_ms"@,
        "detail"@,
    ]
}

/// A row of the active-jobs table; the figures are the job's time so far.
pub open spec fn active_row<M>(j: JobRecord<M>, f: FigureCells) -> Seq<Seq<char>> {
    seq![j.id@, j.status@, j.category@, j.source@] + placement_cells(j) + task_cells(j) + seq![
        j.name@,
        f.elapsed@,
        f.budget@,
        f.frame_budget@,
        f.load@,
        f.load_percent@,
        f.over_budget@,
        f.progress@,
        bool_text(j.blocked),
        bool_text(j.polling),
        bool_text(j.waited_on_gpu),
        bool_text(j.stayed_async),
        f.gpu_wait@,
        opt_text(j.wait_reason),
        opt_text(j.async_mode),
        decimal(j.started_unix_ms as nat),
        j.detail@,
    ]
}

fn active_vec<M>(j: &JobRecord<M>, f: &FigureCells) -> (r: Vec<String>)
    ensures
        string_texts(r@) == active_row(*j, *f),
{
    let mut v = vec![j.id.clone(), j.status.clone(), j.category.clone(), j.source.clone()];
    assert(string_texts(v@) =~= seq![j.id@, j.status@, j.category@, j.source@]);
    append_cells(&mut v, placement_vec(j));
    append_cells(&mut v, task_vec(j));
    let mid = vec![
        j.name.clone(),
        f.elapsed.clone(),
        f.budget.clone(),
        f.frame_budget.clone(),
        f.load.clone(),
        f.load_percent.clone(),
        f.over_budget.clone(),
        f.progress.clone(),
        bool_cell(j.blocked),
        bool_cell(j.polling),
        bool_cell(j.waited_on_gpu),
        bool_cell(j.stayed_async),
        f.gpu_wait.clone(),
        text_cell(&j.wait_reason),
        text_cell(&j.async_mode),
        time_cell(j.started_unix_ms),
        j.detail.clone(),
    ];
    assert(string_texts(mid@) =~= seq![
        j.name@,
        f.elapsed@,
        f.budget@,
        f.frame_budget@,
        f.load@,
        f.load_percent@,
        f.over_budget@,
        f.progress@,
        bool_text(j.blocked),
        bool_text(j.polling),
        bool_text(j.waited_on_gpu),
        bool_text(j.stayed_async),
        f.gpu_wait@,
        opt_text(j.wait_reason),
        opt_text(j.async_mode),
        decimal(j.started_unix_ms as nat),
        j.detail@,
    ]);
    append_cells(&mut v, mid);
    v
}

/// The active-jobs table: one row per running job, in order, with the
/// host's figures for the time it has run so far.
pub fn active_jobs_table<M>(active: &Vec<JobRecord<M>>, cells: &Vec<FigureCells>) -> (r: String)
    requires
        cells@.len() == active@.len(),
    ensures
        r@ == table_text(
            active_header(),
            Seq::new(active@.len(), |i: int| active_row(active@[i], cells@[i])),
        ),
{
    let cols: [&str; 28] = [
        "id",
        "status",
        "category",
        "source",
        "lane",
        "priority",
        "dependency_group",
        "frame_id",
        "task_domain",
        "task_pass",
        "executor",
        "name",
        "active_elapsed_ms",
        "budget_ms",
        "frame_budget_ms",
        "current_load",
        "current_load_percent",
        "current_over_budget",
        "progress",
        "blocked",
        "polling",
        "waited_on_gpu",
        "stayed_async",
        "gpu_wait_ms",
        "wait_reason",
        "async_mode",
        "started_unix_ms",
        "detail",
    ];
    assert(str_texts(cols@) =~= active_header());
    let mut out = csv_header(&cols);
    let ghost header = out@;
    let ghost rows = Seq::new(active@.len(), |i: int| active_row(active@[i], cells@[i]));
    let mut i: usize = 0;
    assert(rows.take(0) =~= Seq::<Seq<Seq<char>>>::empty());
    while i < active.len()
        invariant
            i <= active@.len(),
            cells@.len() == active@.len(),
            rows == Seq::new(active@.len(), |i: int| active_row(active@[i], cells@[i])),
            out@ == header + rows_text(rows.take(i as int)),
            header == join_cells(active_header(), false).push('\n'),
        decreases active@.len() - i,
    {
        let row = active_vec(&active[i], &cells[i]);
        csv_push(&mut out, row.as_slice());
        proof {
            lemma_rows_push(rows.take(i as int), rows[i as int]);
            assert(rows.take(i + 1) =~= rows.take(i as int).push(rows[i as int]));
        }
        i += 1;
    }
    assert(rows.take(active@.len() as int) =~= rows);
    out
}

// --------------------------------------------------------------- timeline

/// `t` as an offset from the run's start, zero where it lies before it.
pub open spec fn offset_from(t: u128, start: u128) -> nat {
    if t >= start {
        (t - start) as nat
    } else {
        0
    }
}

/// The columns of the timeline table.
pub open spec fn timeline_header() -> Seq<Seq<char>> {
    seq![
        "id"@, "category"@, "source"@, "name"@, "status"@, "start_offset_ms"@,
        "end_offset_ms"@, "elapsed_ms"@, "budget_ms"@, "load"@, "frame_id"@,
        "dependency_group"@, "task_domain"@, "task_pass"@, "lane"@, "priority"@, "executor"@,
        "detail"@,
    ]
}

/// A row of the timeline table: a job's start and end as offsets from the
/// run's start (an unfinished job ends at the start).
pub open spec fn timeline_row<M>(j: JobRecord<M>, run_start: u128, f: FigureCells) -> Seq<
    Seq<char>,
> {
    let es = j.metadata.entries@;
    let end = match j.ended_unix_ms {
        Some(e) => e,
        None => run_start,
    };
    let p = placement_cells(j);
    let t = task_cells(j);
    seq![
        j.id@,
        j.category@,
        j.source@,
        j.name@,
        j.status@,
        decimal(offset_from(j.started_unix_ms, run_start)),
        decimal(offset_from(end, run_start)),
        f.elapsed@,
        f.budget@,
        f.load@,
        p[3],
        p[2],
        t[0],
        t[1],
        p[0],
        p[1],
        t[2],
        j.detail@,
    ]
}

fn offset_cell(t: u128, start: u128) -> (r: String)
    ensures
        r@ == decimal(offset_from(t, start)),
{
    if t >= start {
        time_cell(t - start)
    } else {
        time_cell(0)
    }
}

fn timeline_vec<M>(j: &JobRecord<M>, run_start: u128, f: &FigureCells) -> (r: Vec<String>)
    ensures
        string_texts(r@) == timeline_row(*j, run_start, *f),
{
    let p = placement_vec(j);
    let t = task_vec(j);
    assert(string_texts(p@).len() == 4 && string_texts(t@).len() == 3);
    assert(forall|k: int| 0 <= k < 4 ==> #[trigger] string_texts(p@)[k] == p@[k]@);
    assert(forall|k: int| 0 <= k < 3 ==> #[trigger] string_texts(t@)[k] == t@[k]@);
    let end = match j.ended_unix_ms {
        Some(e) => e,
        None => run_start,
    };
    let v = vec![
        j.id.clone(),
        j.category.clone(),
        j.source.clone(),
        j.name.clone(),
        j.status.clone(),
        offset_cell(j.started_unix_ms, run_start),
        offset_cell(end, run_start),
        f.elapsed.clone(),
        f.budget.clone(),
        f.load.clone(),
        p[3].clone(),
        p[2].clone(),
        t[0].clone(),
        t[1].clone(),
        p[0].clone(),
        p[1].clone(),
        t[2].clone(),
        j.detail.clone(),
    ];
    assert(string_texts(v@) =~= timeline_row(*j, run_start, *f));
    v
}

/// The timeline table: one row per completed job, in order, placed on the
/// run's clock from `run_start_unix_ms`.
pub fn timeline_table<M>(
    jobs: &VecDeque<JobRecord<M>>,
    run_start_unix_ms: u128,
    cells: &Vec<FigureCells>,
) -> (r: String)
    requires
        cells@.len() == jobs@.len(),
    ensures
        r@ == table_text(
            timeline_header(),
            Seq::new(jobs@.len(), |i: int| timeline_row(jobs@[i], run_start_unix_ms, cells@[i])),
        ),
{
    let cols: [&str; 18] = [
        "id",
        "category",
        "source",
        "name",
        "status",
        "start_offset_ms",
        "end_offset_ms",
        "elapsed_ms",
        "budget_ms",
        "load",
        "frame_id",
        "dependency_group",
        "task_domain",
        "task_pass",
        "lane",
        "priority",
        "executor",
        "detail",
    ];
    assert(str_texts(cols@) =~= timeline_header());
    let mut out = csv_header(&cols);
    let ghost header = out@;
    let ghost rows = Seq::new(
        jobs@.len(),
        |i: int| timeline_row(jobs@[i], run_start_unix_ms, cells@[i]),
    );
    let mut i: usize = 0;
    assert(rows.take(0) =~= Seq::<Seq<Seq<char>>>::empty());
    while i < jobs.len()
        invariant
            i <= jobs@.len(),
            cells@.len() == jobs@.len(),
            rows == Seq::new(
                jobs@.len(),
                |i: int| timeline_row(jobs@[i], run_start_unix_ms, cells@[i]),
            ),
            out@ == header + rows_text(rows.take(i as int)),
            header == join_cells(timeline_header(), false).push('\n'),
        decreases jobs@.len() - i,
    {
        let row = timeline_vec(&jobs[i], run_start_unix_ms, &cells[i]);
        csv_push(&mut out, row.as_slice());
        proof {
            lemma_rows_push(rows.take(i as int), rows[i as int]);
            assert(rows.take(i + 1) =~= rows.take(i as int).push(rows[i as int]));
        }
        i += 1;
    }
    assert(rows.take(jobs@.len() as int) =~= rows);
    out
}

// ------------------------------------------------------------ diagnostics

/// The columns of the diagnostics table.
pub open spec fn diagnostics_header() -> Seq<Seq<char>> {
    seq!["at_unix_ms"@, "level"@, "code"@, "job_id"@, "message"@]
}

/// A row of the diagnostics table.
pub open spec fn diagnostic_row(d: ProfilerDiagnostic) -> Seq<Seq<char>> {
    seq![decimal(d.at_unix_ms as nat), d.level@, d.code@, opt_text(d.job_id), d.message@]
}

/// The diagnostics table: one row per kept diagnostic, oldest first.
pub fn diagnostics_table(diagnostics: &VecDeque<ProfilerDiagnostic>) -> (r: String)
    ensures
        r@ == table_text(
            diagnostics_header(),
            Seq::new(diagnostics@.len(), |i: int| diagnostic_row(diagnostics@[i])),
        ),
{
    let cols: [&str; 5] = ["at_unix_ms", "level", "code", "job_id", "message"];
    assert(str_texts(cols@) =~= diagnostics_header());
    let mut out = csv_header(&cols);
    let ghost header = out@;
    let ghost rows = Seq::new(diagnostics@.len(), |i: int| diagnostic_row(diagnostics@[i]));
    let mut i: usize = 0;
    assert(rows.take(0) =~= Seq::<Seq<Seq<char>>>::empty());
    while i < diagnostics.len()
        invariant
            i <= diagnostics@.len(),
            rows == Seq::new(diagnostics@.len(), |i: int| diagnostic_row(diagnostics@[i])),
            out@ == header + rows_text(rows.take(i as int)),
            header == join_cells(diagnostics_header(), false).push('\n'),
        decreases diagnostics@.len() - i,
    {
        let d = &diagnostics[i];
        let row = vec![
            time_cell(d.at_unix_ms),
            d.level.clone(),
            d.code.clone(),
            text_cell(&d.job_id),
            d.message.clone(),
        ];
        assert(string_texts(row@) =~= diagnostic_row(diagnostics@[i as int]));
        csv_push(&mut out, row.as_slice());
        proof {
            lemma_rows_push(rows.take(i as int), rows[i as int]);
            assert(rows.take(i + 1) =~= rows.take(i as int).push(rows[i as int]));
        }
        i += 1;
    }
    assert(rows.take(diagnostics@.len() as int) =~= rows);
    out
}

// ------------------------------------------------------------ frame budget

/// The columns of the frame-budget table.
pub open spec fn frame_budget_header() -> Seq<Seq<char>> {
    seq![
        "rank"@, "id"@, "frame_id"@, "status"@, "lane"@, "priority"@, "dependency_group"@,
        "category"@, "source"@, "name"@, "elapsed_ms"@, "frame_budget_ms"@,
        "over_frame_budget_ms"@, "gpu_wait_ms"@, "wait_reason"@, "stayed_async"@,
        "async_mode"@, "detail"@,
    ]
}

/// The row of rank `k + 1` of the frame-budget table.
pub open spec fn frame_budget_row<M>(k: nat, j: JobRecord<M>, f: FigureCells) -> Seq<Seq<char>> {
    let es = j.metadata.entries@;
    seq![
        decimal(k + 1),
        j.id@,
        opt_count(j.frame_id),
        j.status@,
        direct_or_meta(j.lane@, es, seq!["/lane"@, "/event/lane"@]),
        direct_or_meta(j.priority@, es, seq!["/priority"@, "/event/priority"@]),
        direct_or_meta(j.dependency_group@, es, seq!["/dependency_group"@, "/event/dependency_group"@]),
        j.category@,
        j.source@,
        j.name@,
        f.elapsed@,
        f.frame_budget@,
        f.frame_excess@,
        f.gpu_wait@,
        opt_text(j.wait_reason),
        bool_text(j.stayed_async),
        opt_text(j.async_mode),
        j.detail@,
    ]
}

fn frame_budget_vec<M>(k: usize, j: &JobRecord<M>, f: &FigureCells) -> (r: Vec<String>)
    requires
        k < usize::MAX,
    ensures
        string_texts(r@) == frame_budget_row(k as nat, *j, *f),
{
    let v = vec![
        rank(k),
        j.id.clone(),
        count_cell(j.frame_id),
        j.status.clone(),
        direct2(j.lane.clone(), &j.metadata, "/lane", "/event/lane"),
        direct2(j.priority.clone(), &j.metadata, "/priority", "/event/priority"),
        direct2(j.dependency_group.clone(), &j.metadata, "/dependency_group", "/event/dependency_group"),
        j.category.clone(),
        j.source.clone(),
        j.name.clone(),
        f.elapsed.clone(),
        f.frame_budget.clone(),
        f.frame_excess.clone(),
        f.gpu_wait.clone(),
        text_cell(&j.wait_reason),
        bool_cell(j.stayed_async),
        text_cell(&j.async_mode),
        j.detail.clone(),
    ];
    assert(string_texts(v@) =~= frame_budget_row(k as nat, *j, *f));
    v
}

/// The frame-budget table: the jobs at `positions`, in that order (the host
/// ranks them), each with its rank and the host's figures.
pub fn frame_budget_table<M>(
    jobs: &VecDeque<JobRecord<M>>,
    positions: &Vec<usize>,
    cells: &Vec<FigureCells>,
) -> (r: String)
    requires
        cells@.len() == positions@.len(),
        forall|k: int| 0 <= k < positions@.len() ==> #[trigger] positions@[k] < jobs@.len(),
    ensures
        r@ == table_text(
            frame_budget_header(),
            Seq::new(
                positions@.len(),
                |k: int| frame_budget_row(k as nat, jobs@[positions@[k] as int], cells@[k]),
            ),
        ),
{
    let cols: [&str; 18] = [
        "rank",
        "id",
        "frame_id",
        "status",
        "lane",
        "priority",
        "dependency_group",
        "category",
        "source",
        "name",
        "elapsed_ms",
        "frame_budget_ms",
        "over_frame_budget_ms",
        "gpu_wait_ms",
        "wait_reason",
        "stayed_async",
        "async_mode",
        "detail",
    ];
    assert(str_texts(cols@) =~= frame_budget_header());
    let mut out = csv_header(&cols);
    let ghost header = out@;
    let ghost rows = Seq::new(
        positions@.len(),
        |k: int| frame_budget_row(k as nat, jobs@[positions@[k] as int], cells@[k]),
    );
    let mut i: usize = 0;
    assert(rows.take(0) =~= Seq::<Seq<Seq<char>>>::empty());
    while i < positions.len()
        invariant
            i <= positions@.len(),
            cells@.len() == positions@.len(),
            forall|k: int| 0 <= k < positions@.len() ==> #[trigger] positions@[k] < jobs@.len(),
            rows == Seq::new(
                positions@.len(),
                |k: int| frame_budget_row(k as nat, jobs@[positions@[k] as int], cells@[k]),
            ),
            out@ == header + rows_text(rows.take(i as int)),
            header == join_cells(frame_budget_header(), false).push('\n'),
        decreases positions@.len() - i,
    {
        let p = positions[i];
        assert(p == positions@[i as int]);
        let row = frame_budget_vec(i, &jobs[p], &cells[i]);
        csv_push(&mut out, row.as_slice());
        proof {
            lemma_rows_push(rows.take(i as int), rows[i as int]);
            assert(rows.take(i + 1) =~= rows.take(i as int).push(rows[i as int]));
        }
        i += 1;
    }
    assert(rows.take(positions@.len() as int) =~= rows);
    out
}

// ------------------------------------------------------- summary tables

/// A ranked group of the JSON report, its figures formatted by the host.
pub struct SummaryDoc {
    pub key: Option<String>,
    pub category: Option<String>,
    pub source: Option<String>,
    pub sample_name: Option<String>,
    pub count: Option<u64>,
    pub failed: Option<u64>,
    pub slow: Option<u64>,
    pub payload_bytes: Option<u64>,
    pub output_bytes: Option<u64>,
    pub total_ms: String,
    pub share: String,
    pub average_ms: String,
    pub max_ms: String,
    pub max_load: String,
}

/// The columns of a ranked group table (sources, offenders, methods,
/// lanes).
pub open spec fn summary_header() -> Seq<Seq<char>> {
    seq![
        "rank"@, "key"@, "category"@, "source"@, "sample_name"@, "count"@, "failed"@, "slow"@,
        "total_elapsed_ms"@, "total_share_percent"@, "average_elapsed_ms"@, "max_elapsed_ms"@,
        "max_load"@, "total_payload_bytes"@, "total_output_bytes"@,
    ]
}

/// The row of rank `k + 1` of a ranked group table.
pub open spec fn summary_row(k: nat, a: SummaryDoc) -> Seq<Seq<char>> {
    seq![
        decimal(k + 1),
        opt_text(a.key),
        opt_text(a.category),
        opt_text(a.source),
        opt_text(a.sample_name),
        opt_count(a.count),
        opt_count(a.failed),
        opt_count(a.slow),
        a.total_ms@,
        a.share@,
        a.average_ms@,
        a.max_ms@,
        a.max_load@,
        opt_count(a.payload_bytes),
        opt_count(a.output_bytes),
    ]
}

/// A ranked group table: one row per group, in the given order, each with
/// its rank.
pub fn summary_table(rows: &Vec<SummaryDoc>) -> (r: String)
    ensures
        r@ == table_text(
            summary_header(),
            Seq::new(rows@.len(), |k: int| summary_row(k as nat, rows@[k])),
        ),
{
    let cols: [&str; 15] = [
        "rank",
        "key",
        "category",
        "source",
        "sample_name",
        "count",
        "failed",
        "slow",
        "total_elapsed_ms",
        "total_share_percent",
        "average_elapsed_ms",
        "max_elapsed_ms",
        "max_load",
        "total_payload_bytes",
        "total_output_bytes",
    ];
    assert(str_texts(cols@) =~= summary_header());
    let mut out = csv_header(&cols);
    let ghost header = out@;
    let ghost rs = Seq::new(rows@.len(), |k: int| summary_row(k as nat, rows@[k]));
    let mut i: usize = 0;
    assert(rs.take(0) =~= Seq::<Seq<Seq<char>>>::empty());
    while i < rows.len()
        invariant
            i <= rows@.len(),
            rs == Seq::new(rows@.len(), |k: int| summary_row(k as nat, rows@[k])),
            out@ == header + rows_text(rs.take(i as int)),
            header == join_cells(summary_header(), false).push('\n'),
        decreases rows@.len() - i,
    {
        let a = &rows[i];
        let row = vec![
            rank(i),
            text_cell(&a.key),
            text_cell(&a.category),
            text_cell(&a.source),
            text_cell(&a.sample_name),
            count_cell(a.count),
            count_cell(a.failed),
            count_cell(a.slow),
            a.total_ms.clone(),
            a.share.clone(),
            a.average_ms.clone(),
            a.max_ms.clone(),
            a.max_load.clone(),
            count_cell(a.payload_bytes),
            count_cell(a.output_bytes),
        ];
        assert(string_texts(row@) =~= summary_row(i as nat, rows@[i as int]));
        csv_push(&mut out, row.as_slice());
        proof {
            lemma_rows_push(rs.take(i as int), rs[i as int]);
            assert(rs.take(i + 1) =~= rs.take(i as int).push(rs[i as int]));
        }
        i += 1;
    }
    assert(rs.take(rows@.len() as int) =~= rs);
    out
}

/// The columns of the category table.
pub open spec fn category_header() -> Seq<Seq<char>> {
    seq![
        "rank"@, "category"@, "count"@, "failed"@, "slow"@, "total_elapsed_ms"@,
        "total_share_percent"@, "average_elapsed_ms"@, "max_elapsed_ms"@,
    ]
}

/// The row of rank `k + 1` of the category table.
pub open spec fn category_row(k: nat, a: SummaryDoc) -> Seq<Seq<char>> {
    seq![
        decimal(k + 1),
        opt_text(a.category),
        opt_count(a.count),
        opt_count(a.failed),
        opt_count(a.slow),
        a.total_ms@,
        a.share@,
        a.average_ms@,
        a.max_ms@,
    ]
}

/// The category table: one row per category, in the given order, each
/// with its rank.
pub fn category_table(rows: &Vec<SummaryDoc>) -> (r: String)
    ensures
        r@ == table_text(
            category_header(),
            Seq::new(rows@.len(), |k: int| category_row(k as nat, rows@[k])),
        ),
{
    let cols: [&str; 9] = [
        "rank",
        "category",
        "count",
        "failed",
        "slow",
        "total_elapsed_ms",
        "total_share_percent",
        "average_elapsed_ms",
        "max_elapsed_ms",
    ];
    assert(str_texts(cols@) =~= category_header());
    let mut out = csv_header(&cols);
    let ghost header = out@;
    let ghost rs = Seq::new(rows@.len(), |k: int| category_row(k as nat, rows@[k]));
    let mut i: usize = 0;
    assert(rs.take(0) =~= Seq::<Seq<Seq<char>>>::empty());
    while i < rows.len()
        invariant
            i <= rows@.len(),
            rs == Seq::new(rows@.len(), |k: int| category_row(k as nat, rows@[k])),
            out@ == header + rows_text(rs.take(i as int)),
            header == join_cells(category_header(), false).push('\n'),
        decreases rows@.len() - i,
    {
        let a = &rows[i];
        let row = vec![
            rank(i),
            text_cell(&a.category),
            count_cell(a.count),
            count_cell(a.failed),
            count_cell(a.slow),
            a.total_ms.clone(),
            a.share.clone(),
            a.average_ms.clone(),
            a.max_ms.clone(),
        ];
        assert(string_texts(row@) =~= category_row(i as nat, rows@[i as int]));
        csv_push(&mut out, row.as_slice());
        proof {
            lemma_rows_push(rs.take(i as int), rs[i as int]);
            assert(rs.take(i + 1) =~= rs.take(i as int).push(rs[i as int]));
        }
        i += 1;
    }
    assert(rs.take(rows@.len() as int) =~= rs);
    out
}

/// The profiler-first counters, with the shares formatted by the host.
pub struct FirstCounts {
    pub scheduled_jobs: Option<u64>,
    pub blocked_jobs: Option<u64>,
    pub blocked_share: String,
    pub polling_jobs: Option<u64>,
    pub gpu_wait_jobs: Option<u64>,
    pub gpu_wait_share: String,
    pub frame_budget_exceeded_jobs: Option<u64>,
    pub async_jobs: Option<u64>,
    pub async_share: String,
}

/// The columns of the profiler-first table.
pub open spec fn first_header() -> Seq<Seq<char>> {
    seq![
        "scheduled_jobs"@, "blocked_jobs"@, "blocked_share_percent"@, "polling_jobs"@,
        "gpu_wait_jobs"@, "gpu_wait_share_percent"@, "frame_budget_exceeded_jobs"@, "async_jobs"@,
        "async_share_percent"@,
    ]
}

/// The one row of the profiler-first table.
pub open spec fn first_row(f: FirstCounts) -> Seq<Seq<char>> {
    seq![
        opt_count(f.scheduled_jobs),
        opt_count(f.blocked_jobs),
        f.blocked_share@,
        opt_count(f.polling_jobs),
        opt_count(f.gpu_wait_jobs),
        f.gpu_wait_share@,
        opt_count(f.frame_budget_exceeded_jobs),
        opt_count(f.async_jobs),
        f.async_share@,
    ]
}

/// The profiler-first table: the header and one row of counters.
pub fn profiler_first_table(f: &FirstCounts) -> (r: String)
    ensures
        r@ == table_text(first_header(), seq![first_row(*f)]),
{
    let cols: [&str; 9] = [
        "scheduled_jobs",
        "blocked_jobs",
        "blocked_share_percent",
        "polling_jobs",
        "gpu_wait_jobs",
        "gpu_wait_share_percent",
        "frame_budget_exceeded_jobs",
        "async_jobs",
        "async_share_percent",
    ];
    assert(str_texts(cols@) =~= first_header());
    let mut out = csv_header(&cols);
    let ghost header = out@;
    let row = vec![
        count_cell(f.scheduled_jobs),
        count_cell(f.blocked_jobs),
        f.blocked_share.clone(),
        count_cell(f.polling_jobs),
        count_cell(f.gpu_wait_jobs),
        f.gpu_wait_share.clone(),
        count_cell(f.frame_budget_exceeded_jobs),
        count_cell(f.async_jobs),
        f.async_share.clone(),
    ];
    assert(string_texts(row@) =~= first_row(*f));
    csv_push(&mut out, row.as_slice());
    proof {
        lemma_rows_push(Seq::empty(), first_row(*f));
        assert(Seq::<Seq<Seq<char>>>::empty().push(first_row(*f)) =~= seq![first_row(*f)]);
        assert(rows_text(Seq::<Seq<Seq<char>>>::empty()) =~= Seq::<char>::empty());
    }
    out
}

} // verus!
