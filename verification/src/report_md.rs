//! The Markdown report: its sections in order, their tables, the cuts to
//! the top rows, the placeholders and the escaping. The host formats every
//! figure in milliseconds, share or load as text and hands it in; the
//! library lays the report out around those texts.
use vstd::prelude::*;

use crate::csv::string_texts;
use crate::markdown::{escape_md, escape_md_spec, shorten, shorten_spec};
use crate::text::{chars_of, decimal, decimal_chars, push_char, push_str, string_of};

verus! {

// ------------------------------------------------------------ documents

/// A ranked group of the report (offender, method, category, source).
pub struct AggregateDoc {
    pub key: Option<String>,
    pub category: Option<String>,
    pub source: Option<String>,
    pub count: u64,
    pub failed: u64,
    pub slow: u64,
    pub total_ms: String,
    pub share: String,
    pub average_ms: String,
    pub max_ms: String,
    pub max_load: String,
}

/// A job row of the report, with its figures formatted.
pub struct JobDoc {
    pub status: Option<String>,
    pub category: Option<String>,
    pub source: Option<String>,
    pub name: Option<String>,
    pub lane: Option<String>,
    pub detail: Option<String>,
    pub wait_reason: Option<String>,
    pub frame_id: Option<u64>,
    pub stayed_async: bool,
    pub elapsed_ms: String,
    pub budget_ms: String,
    pub load: String,
    pub frame_budget_ms: String,
    pub over_ms: String,
    pub gpu_wait_ms: String,
    pub progress_percent: String,
}

/// A bar of a load chart: its label, how many of its cells are filled, and
/// its figures, padded as the chart aligns them.
pub struct ChartDoc {
    pub label: Option<String>,
    pub filled: usize,
    pub elapsed_ms: String,
    pub share: String,
}

/// The worst offender of the quick answer.
pub struct WorstDoc {
    pub key: Option<String>,
    pub total_ms: String,
    pub share: String,
    pub count: u64,
    pub max_load: String,
    pub slow: u64,
    pub failed: u64,
    pub share_filled: usize,
    pub share_padded: String,
    pub load_filled: usize,
    pub load_padded: String,
}

/// A diagnostic as the report lists it.
pub struct DiagnosticDoc {
    pub level: Option<String>,
    pub code: Option<String>,
    pub message: Option<String>,
}

/// Four percentiles, formatted.
pub struct PercentileDoc {
    pub p50: String,
    pub p90: String,
    pub p95: String,
    pub p99: String,
}

/// One row of the profiler-first view: its count and, where the view has
/// one, its share (formatted, or absent).
pub struct FirstDoc {
    pub count: u64,
    pub share: Option<String>,
}

/// Everything the Markdown report shows, its figures formatted by the host.
pub struct ReportDoc {
    pub reason: Option<String>,
    pub uptime_ms: String,
    pub events_seen: u64,
    pub malformed_events: u64,
    pub worst: Option<WorstDoc>,
    pub active_jobs: u64,
    pub completed_jobs_kept: u64,
    pub failed_jobs: u64,
    pub slow_or_over_budget_jobs: u64,
    pub total_elapsed_ms: String,
    pub average_elapsed_ms: String,
    pub max_elapsed_ms: String,
    pub scheduled: FirstDoc,
    pub blocked: FirstDoc,
    pub polling: FirstDoc,
    pub gpu_wait: FirstDoc,
    pub frame_budget_exceeded: FirstDoc,
    pub stayed_async: FirstDoc,
    pub service_flush_mode: Option<String>,
    pub shutdown_flush_mode: Option<String>,
    pub prefer_engine_threading: bool,
    pub require_engine_threading: bool,
    pub lock_policy: Option<String>,
    pub elapsed_percentiles: PercentileDoc,
    pub load_percentiles: PercentileDoc,
    pub category_chart: Option<Vec<ChartDoc>>,
    pub offender_chart: Option<Vec<ChartDoc>>,
    pub lane_chart: Option<Vec<ChartDoc>>,
    pub offenders: Vec<AggregateDoc>,
    pub methods: Vec<AggregateDoc>,
    pub budget_violations: Vec<JobDoc>,
    pub frame_budget_violations: Vec<JobDoc>,
    pub top_by_elapsed: Vec<JobDoc>,
    pub top_by_load: Vec<JobDoc>,
    pub categories: Vec<AggregateDoc>,
    pub sources: Vec<AggregateDoc>,
    pub active: Option<Vec<JobDoc>>,
    pub diagnostics: Option<Vec<DiagnosticDoc>>,
}

/// The rows a table of the report shows at most.
pub const MD_TOP_LIMIT: usize = 16;

// ---------------------------------------------------------------- text

/// The text, or `fallback` where it is absent.
pub open spec fn or_text(o: Option<String>, fallback: Seq<char>) -> Seq<char> {
    match o {
        Some(s) => s@,
        None => fallback,
    }
}

/// Inline code.
pub open spec fn code(s: Seq<char>) -> Seq<char> {
    "`"@ + s + "`"@
}

/// Table cells after the opening `|`: each as ` cell |`.
pub open spec fn md_cells(cells: Seq<Seq<char>>) -> Seq<char>
    decreases cells.len(),
{
    if cells.len() == 0 {
        Seq::empty()
    } else {
        md_cells(cells.drop_last()) + " "@ + cells.last() + " |"@
    }
}

/// A table row.
pub open spec fn md_row(cells: Seq<Seq<char>>) -> Seq<char> {
    "|"@ + md_cells(cells)
}

/// Lines, each ended by a newline.
pub open spec fn lines_text(lines: Seq<Seq<char>>) -> Seq<char>
    decreases lines.len(),
{
    if lines.len() == 0 {
        Seq::empty()
    } else {
        lines_text(lines.drop_last()) + lines.last().push('\n')
    }
}

/// `n` copies of `c`.
pub open spec fn repeat(c: char, n: nat) -> Seq<char> {
    Seq::new(n, |i: int| c)
}

/// A bar of `width` cells, `filled` of them full.
pub open spec fn bar_text(filled: nat, width: nat) -> Seq<char> {
    repeat('\u{2588}', filled) + repeat(
        '\u{2591}',
        if filled < width {
            (width - filled) as nat
        } else {
            0
        },
    )
}

/// `s` padded with spaces on the right to `width` characters.
pub open spec fn pad_right(s: Seq<char>, width: nat) -> Seq<char> {
    s + repeat(
        ' ',
        if s.len() < width {
            (width - s.len()) as nat
        } else {
            0
        },
    )
}

fn push_line(lines: &mut Vec<String>, s: String)
    ensures
        string_texts(final(lines)@) == string_texts(old(lines)@).push(s@),
{
    let ghost before = lines@;
    lines.push(s);
    assert(string_texts(lines@) =~= string_texts(before).push(s@));
}

fn fixed(lines: &mut Vec<String>, s: &str)
    ensures
        string_texts(final(lines)@) == string_texts(old(lines)@).push(s@),
{
    push_line(lines, s.to_owned());
}

fn text_or(o: &Option<String>, fallback: &str) -> (r: String)
    ensures
        r@ == or_text(*o, fallback@),
{
    match o {
        Some(s) => s.clone(),
        None => fallback.to_owned(),
    }
}

fn code_of(s: &str) -> (r: String)
    ensures
        r@ == code(s@),
{
    let mut r = String::new();
    push_str(&mut r, "`");
    push_str(&mut r, s);
    push_str(&mut r, "`");
    assert(r@ =~= code(s@));
    r
}

fn number(n: u64) -> (r: String)
    ensures
        r@ == decimal(n as nat),
{
    let d = decimal_chars(n);
    string_of(d.as_slice())
}

fn row_of(cells: &Vec<String>) -> (r: String)
    ensures
        r@ == md_row(string_texts(cells@)),
{
    let ghost cs = string_texts(cells@);
    let mut r = String::new();
    push_str(&mut r, "|");
    let mut i: usize = 0;
    assert(cs.take(0) =~= Seq::<Seq<char>>::empty());
    assert(r@ =~= "|"@ + md_cells(cs.take(0)));
    while i < cells.len()
        invariant
            i <= cells@.len(),
            cs == string_texts(cells@),
            r@ == "|"@ + md_cells(cs.take(i as int)),
        decreases cells@.len() - i,
    {
        assert(cs.take(i + 1).drop_last() =~= cs.take(i as int));
        assert(cs.take(i + 1).last() == cells@[i as int]@);
        let ghost before = r@;
        push_str(&mut r, " ");
        push_str(&mut r, cells[i].as_str());
        push_str(&mut r, " |");
        assert(r@ =~= "|"@ + md_cells(cs.take(i + 1)));
        i += 1;
    }
    assert(cs.take(cells@.len() as int) =~= cs);
    r
}

fn repeat_of(out: &mut String, c: char, n: usize)
    ensures
        final(out)@ == old(out)@ + repeat(c, n as nat),
{
    let ghost start = out@;
    let mut k: usize = 0;
    assert(out@ =~= start + repeat(c, 0));
    while k < n
        invariant
            k <= n,
            out@ == start + repeat(c, k as nat),
        decreases n - k,
    {
        push_char(out, c);
        assert(out@ =~= start + repeat(c, (k + 1) as nat));
        k += 1;
    }
}

fn bar_of(filled: usize, width: usize) -> (r: String)
    ensures
        r@ == bar_text(filled as nat, width as nat),
{
    let mut r = String::new();
    repeat_of(&mut r, '\u{2588}', filled);
    let rest = if filled < width {
        width - filled
    } else {
        0
    };
    repeat_of(&mut r, '\u{2591}', rest);
    assert(r@ =~= bar_text(filled as nat, width as nat));
    r
}

fn lines_of(lines: &Vec<String>) -> (r: String)
    ensures
        r@ == lines_text(string_texts(lines@)),
{
    let ghost ls = string_texts(lines@);
    let mut r = String::new();
    let mut i: usize = 0;
    while i < lines.len()
        invariant
            i <= lines@.len(),
            ls == string_texts(lines@),
            r@ == lines_text(ls.take(i as int)),
        decreases lines@.len() - i,
    {
        assert(ls.take(i + 1).drop_last() =~= ls.take(i as int));
        push_str(&mut r, lines[i].as_str());
        push_char(&mut r, '\n');
        assert(r@ =~= lines_text(ls.take(i + 1)));
        i += 1;
    }
    assert(ls.take(lines@.len() as int) =~= ls);
    r
}

// -------------------------------------------------------------- wording

pub const MD_TITLE: &'static str = "# North Star Engine Profiler Report";
pub const MD_INFO_HEAD: &'static str = "> [!INFO] INFO BLOCK — как читать отчёт";
pub const MD_INFO_NOW: &'static str = "> **У нас сейчас:** отчёт показывает instrumented wall-clock time по job/service/plugin событиям. Главная строка для поиска виновника — `total_elapsed_ms` и `total_share_percent`; главная строка для бюджетов кадра — `load`, где `1.0` значит ровно бюджет, а `>1.0` значит перерасход.";
pub const MD_INFO_TECH: &'static str = "> **Technical details (EN):** `load = elapsed_ms / budget_ms`; CSV files are emitted next to JSON/MD and duplicated in the timestamped ZIP archive when archive output is enabled.";
pub const MD_FIRST_NOTE_HEAD: &'static str = "> [!NOTE] REQUEST NOTE — profiler-first culture";
pub const MD_FIRST_NOTE_NOW: &'static str = "> **У нас сейчас:** report теперь отделяет timing от scheduling/waiting/async facts, чтобы не путать `ms` с причиной тормоза.";
pub const MD_FIRST_NOTE_WISH: &'static str = "> **Было бы здорово:** every heavy lane should emit `lane`, `priority`, `dependency_group`, `frame_id`, `frame_budget_ms`, `gpu_wait_ms`, `wait_reason`, and `async_mode` when known.";
pub const MD_FIRST_NOTE_TECH: &'static str = "> **Technical details (EN):** StarProfiler report schema is `newengine.profiler.report.v3`; CSV consumers can read `profiler_first_latest.csv`, `profiler_lanes_latest.csv`, and `profiler_frame_budget_latest.csv`.";
pub const MD_SAFETY_NOTE_HEAD: &'static str = "> [!NOTE] REQUEST NOTE — profiler safety";
pub const MD_SAFETY_NOTE_NOW: &'static str = "> **У нас сейчас:** heavy report build/write is outside the runtime state lock; async flush is routed through `engine.threading` by default.";
pub const MD_SAFETY_NOTE_WISH: &'static str = "> **Было бы здорово:** keep every future heavy profiler export as a visible job/task, never as an invisible background load.";
pub const MD_SAFETY_NOTE_TECH: &'static str = "> **Technical details (EN):** `profiler.flush_report_v1` uses configured service flush mode; `profiler.flush_report_sync_v1` is the explicit synchronous worker entrypoint for `engine.threading` and shutdown-final flush.";

// --------------------------------------------------------------- header

/// The title, the reading guide and the run's facts.
pub open spec fn header_lines(d: ReportDoc) -> Seq<Seq<char>> {
    seq![
        MD_TITLE@,
        ""@,
        MD_INFO_HEAD@,
        MD_INFO_NOW@,
        ">"@,
        MD_INFO_TECH@,
        ""@,
        "- reason: "@ + code(or_text(d.reason, "unknown"@)),
        "- uptime_ms: "@ + code(d.uptime_ms@),
        "- events_seen: "@ + code(decimal(d.events_seen as nat)),
        "- malformed_events: "@ + code(decimal(d.malformed_events as nat)),
        ""@,
    ]
}

fn labelled(label: &str, value: &str) -> (r: String)
    ensures
        r@ == label@ + code(value@),
{
    let mut r = label.to_owned();
    let c = code_of(value);
    push_str(&mut r, c.as_str());
    r
}

fn push_header(lines: &mut Vec<String>, d: &ReportDoc)
    ensures
        string_texts(final(lines)@) == string_texts(old(lines)@) + header_lines(*d),
{
    let ghost start = string_texts(lines@);
    fixed(lines, MD_TITLE);
    fixed(lines, "");
    fixed(lines, MD_INFO_HEAD);
    fixed(lines, MD_INFO_NOW);
    fixed(lines, ">");
    fixed(lines, MD_INFO_TECH);
    fixed(lines, "");
    let reason = text_or(&d.reason, "unknown");
    push_line(lines, labelled("- reason: ", reason.as_str()));
    push_line(lines, labelled("- uptime_ms: ", d.uptime_ms.as_str()));
    let n = number(d.events_seen);
    push_line(lines, labelled("- events_seen: ", n.as_str()));
    let n = number(d.malformed_events);
    push_line(lines, labelled("- malformed_events: ", n.as_str()));
    fixed(lines, "");
    assert(string_texts(lines@) =~= start + header_lines(*d));
}

// --------------------------------------------------------- quick answer

/// The worst offender's sentence.
pub open spec fn worst_line(w: WorstDoc) -> Seq<char> {
    "**Worst offender:** "@ + code(escape_md_spec(or_text(w.key, "<unknown>"@))) + " — "@
        + w.total_ms@ + " ms total, "@ + w.share@ + "% of captured time, "@ + decimal(
        w.count as nat,
    ) + " calls, max load "@ + w.max_load@ + "x, slow/over-budget "@ + decimal(w.slow as nat)
        + ", failed "@ + decimal(w.failed as nat) + "."@
}

/// Who takes the time: the worst offender with its share and load bars, or
/// a note that nothing completed yet.
pub open spec fn quick_lines(d: ReportDoc) -> Seq<Seq<char>> {
    seq!["## Quick answer — кто жрёт время"@, ""@] + (match d.worst {
        Some(w) => seq![
            worst_line(w),
            ""@,
            "```text"@,
            "captured time share  ["@ + bar_text(w.share_filled as nat, 32) + "] "@
                + w.share_padded@ + "%"@,
            "max budget load      ["@ + bar_text(w.load_filled as nat, 32) + "] "@
                + w.load_padded@ + "x"@,
            "```"@,
        ],
        None => seq!["No completed jobs were captured yet."@],
    }) + seq![""@]
}

fn worst_text(w: &WorstDoc) -> (r: String)
    ensures
        r@ == worst_line(*w),
{
    let mut r = "**Worst offender:** ".to_owned();
    let key = text_or(&w.key, "<unknown>");
    let e = escape_md(key.as_str());
    let c = code_of(e.as_str());
    push_str(&mut r, c.as_str());
    push_str(&mut r, " — ");
    push_str(&mut r, w.total_ms.as_str());
    push_str(&mut r, " ms total, ");
    push_str(&mut r, w.share.as_str());
    push_str(&mut r, "% of captured time, ");
    let n = number(w.count);
    push_str(&mut r, n.as_str());
    push_str(&mut r, " calls, max load ");
    push_str(&mut r, w.max_load.as_str());
    push_str(&mut r, "x, slow/over-budget ");
    let n = number(w.slow);
    push_str(&mut r, n.as_str());
    push_str(&mut r, ", failed ");
    let n = number(w.failed);
    push_str(&mut r, n.as_str());
    push_str(&mut r, ".");
    assert(r@ =~= worst_line(*w));
    r
}

fn bar_line(label: &str, filled: usize, value: &str, unit: &str) -> (r: String)
    ensures
        r@ == label@ + bar_text(filled as nat, 32) + "] "@ + value@ + unit@,
{
    let mut r = label.to_owned();
    let b = bar_of(filled, 32);
    push_str(&mut r, b.as_str());
    push_str(&mut r, "] ");
    push_str(&mut r, value);
    push_str(&mut r, unit);
    r
}

fn push_quick(lines: &mut Vec<String>, d: &ReportDoc)
    ensures
        string_texts(final(lines)@) == string_texts(old(lines)@) + quick_lines(*d),
{
    let ghost start = string_texts(lines@);
    fixed(lines, "## Quick answer — кто жрёт время");
    fixed(lines, "");
    match &d.worst {
        Some(w) => {
            push_line(lines, worst_text(w));
            fixed(lines, "");
            fixed(lines, "```text");
            push_line(
                lines,
                bar_line("captured time share  [", w.share_filled, w.share_padded.as_str(), "%"),
            );
            push_line(
                lines,
                bar_line("max budget load      [", w.load_filled, w.load_padded.as_str(), "x"),
            );
            fixed(lines, "```");
        },
        None => {
            fixed(lines, "No completed jobs were captured yet.");
        },
    }
    fixed(lines, "");
    assert(string_texts(lines@) =~= start + quick_lines(*d));
}

// ---------------------------------------------------- executive summary

/// A row of the executive summary.
pub open spec fn metric_row(metric: Seq<char>, value: Seq<char>, meaning: Seq<char>) -> Seq<char> {
    md_row(seq![code(metric), code(value), meaning])
}

/// The counts and totals of the report.
pub open spec fn summary_lines(d: ReportDoc) -> Seq<Seq<char>> {
    seq![
        "## Executive summary"@,
        ""@,
        "| Metric | Value | Meaning |"@,
        "|---|---:|---|"@,
        metric_row(
            "active_jobs"@,
            decimal(d.active_jobs as nat),
            "работа ещё не завершилась; если висит долго — смотреть `Active jobs`"@,
        ),
        metric_row(
            "completed_jobs_kept"@,
            decimal(d.completed_jobs_kept as nat),
            "сколько завершённых записей осталось в ring buffer"@,
        ),
        metric_row(
            "failed_jobs"@,
            decimal(d.failed_jobs as nat),
            "ошибки, которые надо читать вместе с diagnostics"@,
        ),
        metric_row(
            "slow_or_over_budget_jobs"@,
            decimal(d.slow_or_over_budget_jobs as nat),
            "slow threshold или `load >= 1.0`"@,
        ),
        metric_row(
            "total_elapsed_ms"@,
            d.total_elapsed_ms@,
            "сумма captured wall-clock времени по завершённым jobs"@,
        ),
        metric_row(
            "average_elapsed_ms"@,
            d.average_elapsed_ms@,
            "среднее время одной завершённой job"@,
        ),
        metric_row("max_elapsed_ms"@, d.max_elapsed_ms@, "самая дорогая одиночная job"@),
        ""@,
    ]
}

fn metric_text(metric: &str, value: &str, meaning: &str) -> (r: String)
    ensures
        r@ == metric_row(metric@, value@, meaning@),
{
    let cells = vec![code_of(metric), code_of(value), meaning.to_owned()];
    assert(string_texts(cells@) =~= seq![code(metric@), code(value@), meaning@]);
    row_of(&cells)
}

fn push_summary(lines: &mut Vec<String>, d: &ReportDoc)
    ensures
        string_texts(final(lines)@) == string_texts(old(lines)@) + summary_lines(*d),
{
    let ghost start = string_texts(lines@);
    fixed(lines, "## Executive summary");
    fixed(lines, "");
    fixed(lines, "| Metric | Value | Meaning |");
    fixed(lines, "|---|---:|---|");
    let n = number(d.active_jobs);
    push_line(
        lines,
        metric_text(
            "active_jobs",
            n.as_str(),
            "работа ещё не завершилась; если висит долго — смотреть `Active jobs`",
        ),
    );
    let n = number(d.completed_jobs_kept);
    push_line(
        lines,
        metric_text(
            "completed_jobs_kept",
            n.as_str(),
            "сколько завершённых записей осталось в ring buffer",
        ),
    );
    let n = number(d.failed_jobs);
    push_line(
        lines,
        metric_text("failed_jobs", n.as_str(), "ошибки, которые надо читать вместе с diagnostics"),
    );
    let n = number(d.slow_or_over_budget_jobs);
    push_line(
        lines,
        metric_text("slow_or_over_budget_jobs", n.as_str(), "slow threshold или `load >= 1.0`"),
    );
    push_line(
        lines,
        metric_text(
            "total_elapsed_ms",
            d.total_elapsed_ms.as_str(),
            "сумма captured wall-clock времени по завершённым jobs",
        ),
    );
    push_line(
        lines,
        metric_text(
            "average_elapsed_ms",
            d.average_elapsed_ms.as_str(),
            "среднее время одной завершённой job",
        ),
    );
    push_line(
        lines,
        metric_text("max_elapsed_ms", d.max_elapsed_ms.as_str(), "самая дорогая одиночная job"),
    );
    fixed(lines, "");
    assert(string_texts(lines@) =~= start + summary_lines(*d));
}

// --------------------------------------------------- profiler-first view

/// The share cell of a profiler-first row: its share with `%`, or `-`
/// where the row has none.
pub open spec fn share_cell(f: FirstDoc, has_share: bool) -> Seq<char> {
    match f.share {
        Some(s) => if has_share {
            s@ + "%"@
        } else {
            "-"@
        },
        None => "-"@,
    }
}

/// A row of the profiler-first view.
pub open spec fn first_row(question: Seq<char>, f: FirstDoc, has_share: bool, meaning: Seq<char>) -> Seq<
    char,
> {
    md_row(seq![code(question), code(decimal(f.count as nat)), code(share_cell(f, has_share)), meaning])
}

/// The scheduling, waiting and async counts, and the request note.
pub open spec fn first_lines(d: ReportDoc) -> Seq<Seq<char>> {
    seq![
        "## Profiler-first telemetry view"@,
        ""@,
        "| Question | Count | Share | Meaning |"@,
        "|---|---:|---:|---|"@,
        first_row(
            "what was scheduled"@,
            d.scheduled,
            false,
            "jobs that entered the visible scheduling path"@,
        ),
        first_row(
            "what was blocked"@,
            d.blocked,
            true,
            "jobs that reported blocked/waiting/dependency/residency/barrier state"@,
        ),
        first_row(
            "what was polling"@,
            d.polling,
            false,
            "jobs/status events that stayed in a poll/ticket loop"@,
        ),
        first_row(
            "what waited on GPU"@,
            d.gpu_wait,
            true,
            "jobs with gpu_wait_ms or GPU/fence/present/upload wait reason"@,
        ),
        first_row(
            "what exceeded frame budget"@,
            d.frame_budget_exceeded,
            false,
            "jobs where elapsed_ms exceeded explicit frame_budget_ms"@,
        ),
        first_row(
            "what stayed async"@,
            d.stayed_async,
            true,
            "jobs tagged as async/ticket/engine.threading/render-prep/streaming work"@,
        ),
        ""@,
        MD_FIRST_NOTE_HEAD@,
        MD_FIRST_NOTE_NOW@,
        MD_FIRST_NOTE_WISH@,
        MD_FIRST_NOTE_TECH@,
        ""@,
    ]
}

fn first_text(question: &str, f: &FirstDoc, has_share: bool, meaning: &str) -> (r: String)
    ensures
        r@ == first_row(question@, *f, has_share, meaning@),
{
    let share = match &f.share {
        Some(s) => if has_share {
            let mut t = s.clone();
            push_str(&mut t, "%");
            t
        } else {
            "-".to_owned()
        },
        None => "-".to_owned(),
    };
    assert(share@ == share_cell(*f, has_share));
    let n = number(f.count);
    let cells = vec![code_of(question), code_of(n.as_str()), code_of(share.as_str()), meaning.to_owned()];
    assert(string_texts(cells@) =~= seq![
        code(question@),
        code(decimal(f.count as nat)),
        code(share_cell(*f, has_share)),
        meaning@,
    ]);
    row_of(&cells)
}

fn push_first(lines: &mut Vec<String>, d: &ReportDoc)
    ensures
        string_texts(final(lines)@) == string_texts(old(lines)@) + first_lines(*d),
{
    let ghost start = string_texts(lines@);
    fixed(lines, "## Profiler-first telemetry view");
    fixed(lines, "");
    fixed(lines, "| Question | Count | Share | Meaning |");
    fixed(lines, "|---|---:|---:|---|");
    push_line(
        lines,
        first_text(
            "what was scheduled",
            &d.scheduled,
            false,
            "jobs that entered the visible scheduling path",
        ),
    );
    push_line(
        lines,
        first_text(
            "what was blocked",
            &d.blocked,
            true,
            "jobs that reported blocked/waiting/dependency/residency/barrier state",
        ),
    );
    push_line(
        lines,
        first_text(
            "what was polling",
            &d.polling,
            false,
            "jobs/status events that stayed in a poll/ticket loop",
        ),
    );
    push_line(
        lines,
        first_text(
            "what waited on GPU",
            &d.gpu_wait,
            true,
            "jobs with gpu_wait_ms or GPU/fence/present/upload wait reason",
        ),
    );
    push_line(
        lines,
        first_text(
            "what exceeded frame budget",
            &d.frame_budget_exceeded,
            false,
            "jobs where elapsed_ms exceeded explicit frame_budget_ms",
        ),
    );
    push_line(
        lines,
        first_text(
            "what stayed async",
            &d.stayed_async,
            true,
            "jobs tagged as async/ticket/engine.threading/render-prep/streaming work",
        ),
    );
    fixed(lines, "");
    fixed(lines, MD_FIRST_NOTE_HEAD);
    fixed(lines, MD_FIRST_NOTE_NOW);
    fixed(lines, MD_FIRST_NOTE_WISH);
    fixed(lines, MD_FIRST_NOTE_TECH);
    fixed(lines, "");
    assert(string_texts(lines@) =~= start + first_lines(*d));
}

// -------------------------------------------------------- flush policy

/// `true` or `false`.
pub open spec fn bool_word(b: bool) -> Seq<char> {
    if b {
        "true"@
    } else {
        "false"@
    }
}

/// A row of the flush-policy table.
pub open spec fn setting_row(name: Seq<char>, value: Seq<char>) -> Seq<char> {
    md_row(seq![code(name), code(value)])
}

/// The flush and scheduling settings, and the safety note.
pub open spec fn policy_lines(d: ReportDoc) -> Seq<Seq<char>> {
    seq![
        "## Flush and scheduling policy"@,
        ""@,
        "| Setting | Value |"@,
        "|---|---|"@,
        setting_row("service_flush_mode"@, or_text(d.service_flush_mode, "unknown"@)),
        setting_row("shutdown_flush_mode"@, or_text(d.shutdown_flush_mode, "unknown"@)),
        setting_row("prefer_engine_threading"@, bool_word(d.prefer_engine_threading)),
        setting_row("require_engine_threading"@, bool_word(d.require_engine_threading)),
        setting_row(
            "lock_policy"@,
            or_text(d.lock_policy, "snapshot_then_build_and_write_outside_lock"@),
        ),
        ""@,
        MD_SAFETY_NOTE_HEAD@,
        MD_SAFETY_NOTE_NOW@,
        MD_SAFETY_NOTE_WISH@,
        MD_SAFETY_NOTE_TECH@,
        ""@,
    ]
}

fn setting_text(name: &str, value: &str) -> (r: String)
    ensures
        r@ == setting_row(name@, value@),
{
    let cells = vec![code_of(name), code_of(value)];
    assert(string_texts(cells@) =~= seq![code(name@), code(value@)]);
    row_of(&cells)
}

fn bool_string(b: bool) -> (r: String)
    ensures
        r@ == bool_word(b),
{
    if b {
        "true".to_owned()
    } else {
        "false".to_owned()
    }
}

fn push_policy(lines: &mut Vec<String>, d: &ReportDoc)
    ensures
        string_texts(final(lines)@) == string_texts(old(lines)@) + policy_lines(*d),
{
    let ghost start = string_texts(lines@);
    fixed(lines, "## Flush and scheduling policy");
    fixed(lines, "");
    fixed(lines, "| Setting | Value |");
    fixed(lines, "|---|---|");
    let v = text_or(&d.service_flush_mode, "unknown");
    push_line(lines, setting_text("service_flush_mode", v.as_str()));
    let v = text_or(&d.shutdown_flush_mode, "unknown");
    push_line(lines, setting_text("shutdown_flush_mode", v.as_str()));
    let v = bool_string(d.prefer_engine_threading);
    push_line(lines, setting_text("prefer_engine_threading", v.as_str()));
    let v = bool_string(d.require_engine_threading);
    push_line(lines, setting_text("require_engine_threading", v.as_str()));
    let v = text_or(&d.lock_policy, "snapshot_then_build_and_write_outside_lock");
    push_line(lines, setting_text("lock_policy", v.as_str()));
    fixed(lines, "");
    fixed(lines, MD_SAFETY_NOTE_HEAD);
    fixed(lines, MD_SAFETY_NOTE_NOW);
    fixed(lines, MD_SAFETY_NOTE_WISH);
    fixed(lines, MD_SAFETY_NOTE_TECH);
    fixed(lines, "");
    assert(string_texts(lines@) =~= start + policy_lines(*d));
}

// ---------------------------------------------------------- percentiles

/// The latency and load percentiles.
pub open spec fn percentile_lines(d: ReportDoc) -> Seq<Seq<char>> {
    let e = d.elapsed_percentiles;
    let l = d.load_percentiles;
    seq![
        "## Percentiles — latency and budget load"@,
        ""@,
        "| Metric | p50 | p90 | p95 | p99 |"@,
        "|---|---:|---:|---:|---:|"@,
        md_row(seq![code("elapsed_ms"@), e.p50@, e.p90@, e.p95@, e.p99@]),
        md_row(
            seq![code("load"@), l.p50@ + "x"@, l.p90@ + "x"@, l.p95@ + "x"@, l.p99@ + "x"@],
        ),
        ""@,
    ]
}

fn with_x(s: &String) -> (r: String)
    ensures
        r@ == s@ + "x"@,
{
    let mut r = s.clone();
    push_str(&mut r, "x");
    r
}

fn push_percentiles(lines: &mut Vec<String>, d: &ReportDoc)
    ensures
        string_texts(final(lines)@) == string_texts(old(lines)@) + percentile_lines(*d),
{
    let ghost start = string_texts(lines@);
    fixed(lines, "## Percentiles — latency and budget load");
    fixed(lines, "");
    fixed(lines, "| Metric | p50 | p90 | p95 | p99 |");
    fixed(lines, "|---|---:|---:|---:|---:|");
    let e = &d.elapsed_percentiles;
    let cells = vec![code_of("elapsed_ms"), e.p50.clone(), e.p90.clone(), e.p95.clone(), e.p99.clone()];
    assert(string_texts(cells@) =~= seq![code("elapsed_ms"@), e.p50@, e.p90@, e.p95@, e.p99@]);
    push_line(lines, row_of(&cells));
    let l = &d.load_percentiles;
    let cells = vec![code_of("load"), with_x(&l.p50), with_x(&l.p90), with_x(&l.p95), with_x(&l.p99)];
    assert(string_texts(cells@) =~= seq![
        code("load"@),
        l.p50@ + "x"@,
        l.p90@ + "x"@,
        l.p95@ + "x"@,
        l.p99@ + "x"@,
    ]);
    push_line(lines, row_of(&cells));
    fixed(lines, "");
    assert(string_texts(lines@) =~= start + percentile_lines(*d));
}

// --------------------------------------------------------------- charts

/// The bars a chart shows at most.
pub const MD_CHART_LIMIT: usize = 10;

/// The smaller of two counts.
pub open spec fn min_nat(a: nat, b: nat) -> nat {
    if a < b {
        a
    } else {
        b
    }
}

/// One bar of a chart: its label cut and padded to 34 characters, the bar
/// of 28 cells, the milliseconds and the share.
pub open spec fn chart_row(c: ChartDoc) -> Seq<char> {
    pad_right(shorten_spec(or_text(c.label, "-"@), 34), 34) + " ["@ + bar_text(c.filled as nat, 28)
        + "] "@ + c.elapsed_ms@ + " ms "@ + c.share@ + "%"@
}

/// A load chart: its title, then the first ten bars, or `No data.`.
pub open spec fn chart_lines(title: Seq<char>, rows: Option<Vec<ChartDoc>>) -> Seq<Seq<char>> {
    seq![title, ""@] + match rows {
        Some(v) => if v@.len() == 0 {
            seq!["No data."@, ""@]
        } else {
            seq!["```text"@] + Seq::new(
                min_nat(v@.len(), MD_CHART_LIMIT as nat),
                |k: int| chart_row(v@[k]),
            ) + seq!["```"@, ""@]
        },
        None => seq!["No data."@, ""@],
    }
}

fn chart_text(c: &ChartDoc) -> (r: String)
    ensures
        r@ == chart_row(*c),
{
    let label = text_or(&c.label, "-");
    let short = shorten(label.as_str(), 34);
    let mut r = short.clone();
    let sc = chars_of(short.as_str());
    let fill: usize = if sc.len() < 34 {
        34 - sc.len()
    } else {
        0
    };
    repeat_of(&mut r, ' ', fill);
    push_str(&mut r, " [");
    let b = bar_of(c.filled, 28);
    push_str(&mut r, b.as_str());
    push_str(&mut r, "] ");
    push_str(&mut r, c.elapsed_ms.as_str());
    push_str(&mut r, " ms ");
    push_str(&mut r, c.share.as_str());
    push_str(&mut r, "%");
    assert(r@ =~= chart_row(*c));
    r
}

fn push_chart(lines: &mut Vec<String>, title: &str, rows: &Option<Vec<ChartDoc>>)
    ensures
        string_texts(final(lines)@) == string_texts(old(lines)@) + chart_lines(title@, *rows),
{
    let ghost start = string_texts(lines@);
    fixed(lines, title);
    fixed(lines, "");
    match rows {
        Some(v) => {
            if v.len() == 0 {
                fixed(lines, "No data.");
                fixed(lines, "");
            } else {
                fixed(lines, "```text");
                let n: usize = if v.len() < MD_CHART_LIMIT {
                    v.len()
                } else {
                    MD_CHART_LIMIT
                };
                let ghost mid = string_texts(lines@);
                let mut k: usize = 0;
                while k < n
                    invariant
                        k <= n,
                        n <= v@.len(),
                        string_texts(lines@) == mid + Seq::new(k as nat, |q: int| chart_row(v@[q])),
                    decreases n - k,
                {
                    push_line(lines, chart_text(&v[k]));
                    assert(Seq::new((k + 1) as nat, |q: int| chart_row(v@[q])) =~= Seq::new(
                        k as nat,
                        |q: int| chart_row(v@[q]),
                    ).push(chart_row(v@[k as int])));
                    k += 1;
                }
                fixed(lines, "```");
                fixed(lines, "");
            }
        },
        None => {
            fixed(lines, "No data.");
            fixed(lines, "");
        },
    }
    assert(string_texts(lines@) =~= start + chart_lines(title@, *rows));
}

// ------------------------------------------------------- ranked tables

/// A code cell of escaped text, `-` where absent.
pub open spec fn esc_code(o: Option<String>) -> Seq<char> {
    code(escape_md_spec(or_text(o, "-"@)))
}

/// A row of the offenders or methods table, at rank `k + 1`.
pub open spec fn ranked_row(k: nat, a: AggregateDoc) -> Seq<char> {
    md_row(
        seq![
            decimal(k + 1),
            esc_code(a.key),
            esc_code(a.source),
            esc_code(a.category),
            decimal(a.count as nat),
            a.total_ms@,
            a.share@ + "%"@,
            a.average_ms@,
            a.max_ms@,
            a.max_load@ + "x"@,
            decimal(a.slow as nat),
            decimal(a.failed as nat),
        ],
    )
}

/// A ranked table of groups: title, header, the top rows, a blank line.
pub open spec fn ranked_lines(title: Seq<char>, header: Seq<char>, rows: Seq<AggregateDoc>) -> Seq<
    Seq<char>,
> {
    seq![title, ""@, header, "|---:|---|---|---|---:|---:|---:|---:|---:|---:|---:|---:|"@]
        + Seq::new(min_nat(rows.len(), MD_TOP_LIMIT as nat), |k: int| ranked_row(k as nat, rows[k]))
        + seq![""@]
}

fn esc_code_of(o: &Option<String>) -> (r: String)
    ensures
        r@ == esc_code(*o),
{
    let t = text_or(o, "-");
    let e = escape_md(t.as_str());
    code_of(e.as_str())
}

fn rank_of(k: usize) -> (r: String)
    requires
        k < 1000,
    ensures
        r@ == decimal(k as nat + 1),
{
    number((k + 1) as u64)
}

fn ranked_text(k: usize, a: &AggregateDoc) -> (r: String)
    requires
        k < 1000,
    ensures
        r@ == ranked_row(k as nat, *a),
{
    let cells = vec![
        rank_of(k),
        esc_code_of(&a.key),
        esc_code_of(&a.source),
        esc_code_of(&a.category),
        number(a.count),
        a.total_ms.clone(),
        with_unit(&a.share, "%"),
        a.average_ms.clone(),
        a.max_ms.clone(),
        with_x(&a.max_load),
        number(a.slow),
        number(a.failed),
    ];
    assert(string_texts(cells@) =~= seq![
        decimal(k as nat + 1),
        esc_code(a.key),
        esc_code(a.source),
        esc_code(a.category),
        decimal(a.count as nat),
        a.total_ms@,
        a.share@ + "%"@,
        a.average_ms@,
        a.max_ms@,
        a.max_load@ + "x"@,
        decimal(a.slow as nat),
        decimal(a.failed as nat),
    ]);
    row_of(&cells)
}

fn with_unit(s: &String, unit: &str) -> (r: String)
    ensures
        r@ == s@ + unit@,
{
    let mut r = s.clone();
    push_str(&mut r, unit);
    r
}

fn top_count(len: usize) -> (r: usize)
    ensures
        r == min_nat(len as nat, MD_TOP_LIMIT as nat),
{
    if len < MD_TOP_LIMIT {
        len
    } else {
        MD_TOP_LIMIT
    }
}

fn push_ranked(lines: &mut Vec<String>, title: &str, header: &str, rows: &Vec<AggregateDoc>)
    ensures
        string_texts(final(lines)@) == string_texts(old(lines)@) + ranked_lines(title@, header@, rows@),
{
    let ghost start = string_texts(lines@);
    fixed(lines, title);
    fixed(lines, "");
    fixed(lines, header);
    fixed(lines, "|---:|---|---|---|---:|---:|---:|---:|---:|---:|---:|---:|");
    let n = top_count(rows.len());
    let ghost mid = string_texts(lines@);
    let mut k: usize = 0;
    while k < n
        invariant
            k <= n,
            n <= rows@.len(),
            n <= MD_TOP_LIMIT,
            string_texts(lines@) == mid + Seq::new(k as nat, |q: int| ranked_row(q as nat, rows@[q])),
        decreases n - k,
    {
        push_line(lines, ranked_text(k, &rows[k]));
        assert(Seq::new((k + 1) as nat, |q: int| ranked_row(q as nat, rows@[q])) =~= Seq::new(
            k as nat,
            |q: int| ranked_row(q as nat, rows@[q]),
        ).push(ranked_row(k as nat, rows@[k as int])));
        k += 1;
    }
    fixed(lines, "");
    assert(string_texts(lines@) =~= start + ranked_lines(title@, header@, rows@));
}

// ----------------------------------------------------------- job tables

/// A plain code cell, `-` where absent.
pub open spec fn plain_code(o: Option<String>) -> Seq<char> {
    code(or_text(o, "-"@))
}

/// An escaped free-text cell, empty where absent.
pub open spec fn esc_text(o: Option<String>) -> Seq<char> {
    escape_md_spec(or_text(o, ""@))
}

/// The header of the job tables.
pub open spec fn job_header() -> Seq<Seq<char>> {
    seq![
        "| Rank | Status | Category | Source | Name | Elapsed ms | Budget ms | Load | Detail |"@,
        "|---:|---|---|---|---|---:|---:|---:|---|"@,
    ]
}

/// A row of a job table, at rank `k + 1`.
pub open spec fn job_row(k: nat, j: JobDoc) -> Seq<char> {
    md_row(
        seq![
            decimal(k + 1),
            plain_code(j.status),
            plain_code(j.category),
            plain_code(j.source),
            esc_code(j.name),
            j.elapsed_ms@,
            j.budget_ms@,
            j.load@ + "x"@,
            esc_text(j.detail),
        ],
    )
}

/// A job table: title, header, the top rows, a blank line.
pub open spec fn job_lines(title: Seq<char>, rows: Seq<JobDoc>) -> Seq<Seq<char>> {
    seq![title, ""@] + job_header() + Seq::new(
        min_nat(rows.len(), MD_TOP_LIMIT as nat),
        |k: int| job_row(k as nat, rows[k]),
    ) + seq![""@]
}

fn plain_code_of(o: &Option<String>) -> (r: String)
    ensures
        r@ == plain_code(*o),
{
    let t = text_or(o, "-");
    code_of(t.as_str())
}

fn esc_text_of(o: &Option<String>) -> (r: String)
    ensures
        r@ == esc_text(*o),
{
    let t = text_or(o, "");
    escape_md(t.as_str())
}

fn job_text(k: usize, j: &JobDoc) -> (r: String)
    requires
        k < 1000,
    ensures
        r@ == job_row(k as nat, *j),
{
    let cells = vec![
        rank_of(k),
        plain_code_of(&j.status),
        plain_code_of(&j.category),
        plain_code_of(&j.source),
        esc_code_of(&j.name),
        j.elapsed_ms.clone(),
        j.budget_ms.clone(),
        with_x(&j.load),
        esc_text_of(&j.detail),
    ];
    assert(string_texts(cells@) =~= seq![
        decimal(k as nat + 1),
        plain_code(j.status),
        plain_code(j.category),
        plain_code(j.source),
        esc_code(j.name),
        j.elapsed_ms@,
        j.budget_ms@,
        j.load@ + "x"@,
        esc_text(j.detail),
    ]);
    row_of(&cells)
}

fn push_jobs(lines: &mut Vec<String>, title: &str, rows: &Vec<JobDoc>)
    ensures
        string_texts(final(lines)@) == string_texts(old(lines)@) + job_lines(title@, rows@),
{
    let ghost start = string_texts(lines@);
    fixed(lines, title);
    fixed(lines, "");
    fixed(lines, "| Rank | Status | Category | Source | Name | Elapsed ms | Budget ms | Load | Detail |");
    fixed(lines, "|---:|---|---|---|---|---:|---:|---:|---|");
    let n = top_count(rows.len());
    let ghost mid = string_texts(lines@);
    let mut k: usize = 0;
    while k < n
        invariant
            k <= n,
            n <= rows@.len(),
            n <= MD_TOP_LIMIT,
            string_texts(lines@) == mid + Seq::new(k as nat, |q: int| job_row(q as nat, rows@[q])),
        decreases n - k,
    {
        push_line(lines, job_text(k, &rows[k]));
        assert(Seq::new((k + 1) as nat, |q: int| job_row(q as nat, rows@[q])) =~= Seq::new(
            k as nat,
            |q: int| job_row(q as nat, rows@[q]),
        ).push(job_row(k as nat, rows@[k as int])));
        k += 1;
    }
    fixed(lines, "");
    assert(string_texts(lines@) =~= start + job_lines(title@, rows@));
}

// ------------------------------------------------------ frame budget

/// A frame id, `-` where absent.
pub open spec fn frame_text(f: Option<u64>) -> Seq<char> {
    match f {
        Some(n) => decimal(n as nat),
        None => "-"@,
    }
}

/// A row of the frame-budget table, at rank `k + 1`.
pub open spec fn frame_row(k: nat, j: JobDoc) -> Seq<char> {
    md_row(
        seq![
            decimal(k + 1),
            frame_text(j.frame_id),
            esc_code(j.lane),
            esc_code(j.category),
            esc_code(j.source),
            esc_code(j.name),
            j.elapsed_ms@,
            j.frame_budget_ms@,
            j.over_ms@,
            j.gpu_wait_ms@,
            esc_text(j.wait_reason),
            code(bool_word(j.stayed_async)),
            esc_text(j.detail),
        ],
    )
}

/// The frame-budget table.
pub open spec fn frame_lines(rows: Seq<JobDoc>) -> Seq<Seq<char>> {
    seq![
        "## Frame budget violations — explicit frame envelope misses"@,
        ""@,
        "| Rank | Frame | Lane | Category | Source | Name | Elapsed ms | Frame budget ms | Over ms | GPU wait ms | Wait reason | Async | Detail |"@,
        "|---:|---:|---|---|---|---|---:|---:|---:|---:|---|---|---|"@,
    ] + Seq::new(min_nat(rows.len(), MD_TOP_LIMIT as nat), |k: int| frame_row(k as nat, rows[k]))
        + seq![""@]
}

fn frame_text_of(f: Option<u64>) -> (r: String)
    ensures
        r@ == frame_text(f),
{
    match f {
        Some(n) => number(n),
        None => "-".to_owned(),
    }
}

fn frame_row_text(k: usize, j: &JobDoc) -> (r: String)
    requires
        k < 1000,
    ensures
        r@ == frame_row(k as nat, *j),
{
    let b = bool_string(j.stayed_async);
    let cells = vec![
        rank_of(k),
        frame_text_of(j.frame_id),
        esc_code_of(&j.lane),
        esc_code_of(&j.category),
        esc_code_of(&j.source),
        esc_code_of(&j.name),
        j.elapsed_ms.clone(),
        j.frame_budget_ms.clone(),
        j.over_ms.clone(),
        j.gpu_wait_ms.clone(),
        esc_text_of(&j.wait_reason),
        code_of(b.as_str()),
        esc_text_of(&j.detail),
    ];
    assert(string_texts(cells@) =~= seq![
        decimal(k as nat + 1),
        frame_text(j.frame_id),
        esc_code(j.lane),
        esc_code(j.category),
        esc_code(j.source),
        esc_code(j.name),
        j.elapsed_ms@,
        j.frame_budget_ms@,
        j.over_ms@,
        j.gpu_wait_ms@,
        esc_text(j.wait_reason),
        code(bool_word(j.stayed_async)),
        esc_text(j.detail),
    ]);
    row_of(&cells)
}

fn push_frames(lines: &mut Vec<String>, rows: &Vec<JobDoc>)
    ensures
        string_texts(final(lines)@) == string_texts(old(lines)@) + frame_lines(rows@),
{
    let ghost start = string_texts(lines@);
    fixed(lines, "## Frame budget violations — explicit frame envelope misses");
    fixed(lines, "");
    fixed(
        lines,
        "| Rank | Frame | Lane | Category | Source | Name | Elapsed ms | Frame budget ms | Over ms | GPU wait ms | Wait reason | Async | Detail |",
    );
    fixed(lines, "|---:|---:|---|---|---|---|---:|---:|---:|---:|---|---|---|");
    let n = top_count(rows.len());
    let ghost mid = string_texts(lines@);
    let mut k: usize = 0;
    while k < n
        invariant
            k <= n,
            n <= rows@.len(),
            n <= MD_TOP_LIMIT,
            string_texts(lines@) == mid + Seq::new(k as nat, |q: int| frame_row(q as nat, rows@[q])),
        decreases n - k,
    {
        push_line(lines, frame_row_text(k, &rows[k]));
        assert(Seq::new((k + 1) as nat, |q: int| frame_row(q as nat, rows@[q])) =~= Seq::new(
            k as nat,
            |q: int| frame_row(q as nat, rows@[q]),
        ).push(frame_row(k as nat, rows@[k as int])));
        k += 1;
    }
    fixed(lines, "");
    assert(string_texts(lines@) =~= start + frame_lines(rows@));
}

// ------------------------------------------------ categories and sources

/// A row of the by-category table.
pub open spec fn category_row(a: AggregateDoc) -> Seq<char> {
    md_row(
        seq![
            esc_code(a.category),
            decimal(a.count as nat),
            decimal(a.failed as nat),
            decimal(a.slow as nat),
            a.total_ms@,
            a.share@ + "%"@,
            a.average_ms@,
            a.max_ms@,
        ],
    )
}

/// The by-category table: every category.
pub open spec fn category_lines(rows: Seq<AggregateDoc>) -> Seq<Seq<char>> {
    seq![
        "## By category"@,
        ""@,
        "| Category | Count | Failed | Slow | Total ms | Share | Avg ms | Max ms |"@,
        "|---|---:|---:|---:|---:|---:|---:|---:|"@,
    ] + Seq::new(rows.len(), |k: int| category_row(rows[k])) + seq![""@]
}

fn category_text(a: &AggregateDoc) -> (r: String)
    ensures
        r@ == category_row(*a),
{
    let cells = vec![
        esc_code_of(&a.category),
        number(a.count),
        number(a.failed),
        number(a.slow),
        a.total_ms.clone(),
        with_unit(&a.share, "%"),
        a.average_ms.clone(),
        a.max_ms.clone(),
    ];
    assert(string_texts(cells@) =~= seq![
        esc_code(a.category),
        decimal(a.count as nat),
        decimal(a.failed as nat),
        decimal(a.slow as nat),
        a.total_ms@,
        a.share@ + "%"@,
        a.average_ms@,
        a.max_ms@,
    ]);
    row_of(&cells)
}

fn push_categories(lines: &mut Vec<String>, rows: &Vec<AggregateDoc>)
    ensures
        string_texts(final(lines)@) == string_texts(old(lines)@) + category_lines(rows@),
{
    let ghost start = string_texts(lines@);
    fixed(lines, "## By category");
    fixed(lines, "");
    fixed(lines, "| Category | Count | Failed | Slow | Total ms | Share | Avg ms | Max ms |");
    fixed(lines, "|---|---:|---:|---:|---:|---:|---:|---:|");
    let ghost mid = string_texts(lines@);
    let mut k: usize = 0;
    while k < rows.len()
        invariant
            k <= rows@.len(),
            string_texts(lines@) == mid + Seq::new(k as nat, |q: int| category_row(rows@[q])),
        decreases rows@.len() - k,
    {
        push_line(lines, category_text(&rows[k]));
        assert(Seq::new((k + 1) as nat, |q: int| category_row(rows@[q])) =~= Seq::new(
            k as nat,
            |q: int| category_row(rows@[q]),
        ).push(category_row(rows@[k as int])));
        k += 1;
    }
    fixed(lines, "");
    assert(string_texts(lines@) =~= start + category_lines(rows@));
}

/// A row of the by-source table.
pub open spec fn source_row(a: AggregateDoc) -> Seq<char> {
    md_row(
        seq![
            esc_code(a.key),
            decimal(a.count as nat),
            a.total_ms@,
            a.share@ + "%"@,
            a.average_ms@,
            a.max_ms@,
            a.max_load@ + "x"@,
            decimal(a.slow as nat),
            decimal(a.failed as nat),
        ],
    )
}

/// The by-source table: the top sources.
pub open spec fn source_lines(rows: Seq<AggregateDoc>) -> Seq<Seq<char>> {
    seq![
        "## By source"@,
        ""@,
        "| Source | Calls | Total ms | Share | Avg ms | Max ms | Max load | Slow | Failed |"@,
        "|---|---:|---:|---:|---:|---:|---:|---:|---:|"@,
    ] + Seq::new(min_nat(rows.len(), MD_TOP_LIMIT as nat), |k: int| source_row(rows[k])) + seq![""@]
}

fn source_text(a: &AggregateDoc) -> (r: String)
    ensures
        r@ == source_row(*a),
{
    let cells = vec![
        esc_code_of(&a.key),
        number(a.count),
        a.total_ms.clone(),
        with_unit(&a.share, "%"),
        a.average_ms.clone(),
        a.max_ms.clone(),
        with_x(&a.max_load),
        number(a.slow),
        number(a.failed),
    ];
    assert(string_texts(cells@) =~= seq![
        esc_code(a.key),
        decimal(a.count as nat),
        a.total_ms@,
        a.share@ + "%"@,
        a.average_ms@,
        a.max_ms@,
        a.max_load@ + "x"@,
        decimal(a.slow as nat),
        decimal(a.failed as nat),
    ]);
    row_of(&cells)
}

fn push_sources(lines: &mut Vec<String>, rows: &Vec<AggregateDoc>)
    ensures
        string_texts(final(lines)@) == string_texts(old(lines)@) + source_lines(rows@),
{
    let ghost start = string_texts(lines@);
    fixed(lines, "## By source");
    fixed(lines, "");
    fixed(lines, "| Source | Calls | Total ms | Share | Avg ms | Max ms | Max load | Slow | Failed |");
    fixed(lines, "|---|---:|---:|---:|---:|---:|---:|---:|---:|");
    let n = top_count(rows.len());
    let ghost mid = string_texts(lines@);
    let mut k: usize = 0;
    while k < n
        invariant
            k <= n,
            n <= rows@.len(),
            string_texts(lines@) == mid + Seq::new(k as nat, |q: int| source_row(rows@[q])),
        decreases n - k,
    {
        push_line(lines, source_text(&rows[k]));
        assert(Seq::new((k + 1) as nat, |q: int| source_row(rows@[q])) =~= Seq::new(
            k as nat,
            |q: int| source_row(rows@[q]),
        ).push(source_row(rows@[k as int])));
        k += 1;
    }
    fixed(lines, "");
    assert(string_texts(lines@) =~= start + source_lines(rows@));
}

// ----------------------------------------------------------- active jobs

/// A row of the active-jobs table.
pub open spec fn active_row(j: JobDoc) -> Seq<char> {
    md_row(
        seq![
            plain_code(j.status),
            plain_code(j.category),
            plain_code(j.source),
            esc_code(j.name),
            j.elapsed_ms@,
            j.budget_ms@,
            j.load@ + "x"@,
            j.progress_percent@ + "%"@,
            esc_text(j.detail),
        ],
    )
}

/// The running jobs: a note where there are none, else the top rows.
pub open spec fn active_lines(rows: Option<Vec<JobDoc>>) -> Seq<Seq<char>> {
    seq!["## Active jobs"@, ""@] + match rows {
        Some(v) => if v@.len() == 0 {
            seq!["No active jobs at report flush time."@]
        } else {
            seq![
                "| Status | Category | Source | Name | Active ms | Budget ms | Current load | Progress | Detail |"@,
                "|---|---|---|---|---:|---:|---:|---:|---|"@,
            ] + Seq::new(min_nat(v@.len(), MD_TOP_LIMIT as nat), |k: int| active_row(v@[k]))
        },
        None => Seq::empty(),
    } + seq![""@]
}

fn active_text(j: &JobDoc) -> (r: String)
    ensures
        r@ == active_row(*j),
{
    let cells = vec![
        plain_code_of(&j.status),
        plain_code_of(&j.category),
        plain_code_of(&j.source),
        esc_code_of(&j.name),
        j.elapsed_ms.clone(),
        j.budget_ms.clone(),
        with_x(&j.load),
        with_unit(&j.progress_percent, "%"),
        esc_text_of(&j.detail),
    ];
    assert(string_texts(cells@) =~= seq![
        plain_code(j.status),
        plain_code(j.category),
        plain_code(j.source),
        esc_code(j.name),
        j.elapsed_ms@,
        j.budget_ms@,
        j.load@ + "x"@,
        j.progress_percent@ + "%"@,
        esc_text(j.detail),
    ]);
    row_of(&cells)
}

fn push_active(lines: &mut Vec<String>, rows: &Option<Vec<JobDoc>>)
    ensures
        string_texts(final(lines)@) == string_texts(old(lines)@) + active_lines(*rows),
{
    let ghost start = string_texts(lines@);
    fixed(lines, "## Active jobs");
    fixed(lines, "");
    match rows {
        Some(v) => {
            if v.len() == 0 {
                fixed(lines, "No active jobs at report flush time.");
            } else {
                fixed(
                    lines,
                    "| Status | Category | Source | Name | Active ms | Budget ms | Current load | Progress | Detail |",
                );
                fixed(lines, "|---|---|---|---|---:|---:|---:|---:|---|");
                let n = top_count(v.len());
                let ghost mid = string_texts(lines@);
                let mut k: usize = 0;
                while k < n
                    invariant
                        k <= n,
                        n <= v@.len(),
                        string_texts(lines@) == mid + Seq::new(k as nat, |q: int| active_row(v@[q])),
                    decreases n - k,
                {
                    push_line(lines, active_text(&v[k]));
                    assert(Seq::new((k + 1) as nat, |q: int| active_row(v@[q])) =~= Seq::new(
                        k as nat,
                        |q: int| active_row(v@[q]),
                    ).push(active_row(v@[k as int])));
                    k += 1;
                }
            }
        },
        None => {},
    }
    fixed(lines, "");
    assert(string_texts(lines@) =~= start + active_lines(*rows));
}

// ----------------------------------------------------------- CSV outputs

/// The list of the CSV tables a report writes.
pub open spec fn csv_lines() -> Seq<Seq<char>> {
    seq![
        "## CSV outputs"@,
        ""@,
        "When enabled, the profiler writes these machine-readable tables:"@,
        ""@,
        "| CSV | Purpose |"@,
        "|---|---|"@,
        "| `profiler_jobs_latest.csv` | all completed jobs with elapsed/budget/load columns |"@,
        "| `profiler_top_offenders_latest.csv` | grouped suspects sorted by total captured time |"@,
        "| `profiler_categories_latest.csv` | category totals and share-of-time |"@,
        "| `profiler_sources_latest.csv` | source totals and share-of-time |"@,
        "| `profiler_active_jobs_latest.csv` | jobs still running at flush time with current load |"@,
        "| `profiler_timeline_latest.csv` | completed jobs with run-relative start/end offsets |"@,
        "| `profiler_methods_latest.csv` | method/service grouped timing totals |"@,
        "| `profiler_budget_violations_latest.csv` | jobs where `load >= 1.0` or slow threshold was crossed |"@,
        "| `profiler_first_latest.csv` | scheduled/blocked/polling/GPU-wait/frame-budget/async counters |"@,
        "| `profiler_lanes_latest.csv` | lane totals and share-of-time |"@,
        "| `profiler_frame_budget_latest.csv` | explicit frame-budget misses with lane/frame/wait fields |"@,
        "| `profiler_diagnostics_latest.csv` | warnings/errors emitted by profiler analysis |"@,
        ""@
    ]
}

fn push_csv_list(lines: &mut Vec<String>)
    ensures
        string_texts(final(lines)@) == string_texts(old(lines)@) + csv_lines(),
{
    let ghost start = string_texts(lines@);
    fixed(lines, "## CSV outputs");
    fixed(lines, "");
    fixed(lines, "When enabled, the profiler writes these machine-readable tables:");
    fixed(lines, "");
    fixed(lines, "| CSV | Purpose |");
    fixed(lines, "|---|---|");
    fixed(lines, "| `profiler_jobs_latest.csv` | all completed jobs with elapsed/budget/load columns |");
    fixed(lines, "| `profiler_top_offenders_latest.csv` | grouped suspects sorted by total captured time |");
    fixed(lines, "| `profiler_categories_latest.csv` | category totals and share-of-time |");
    fixed(lines, "| `profiler_sources_latest.csv` | source totals and share-of-time |");
    fixed(lines, "| `profiler_active_jobs_latest.csv` | jobs still running at flush time with current load |");
    fixed(lines, "| `profiler_timeline_latest.csv` | completed jobs with run-relative start/end offsets |");
    fixed(lines, "| `profiler_methods_latest.csv` | method/service grouped timing totals |");
    fixed(lines, "| `profiler_budget_violations_latest.csv` | jobs where `load >= 1.0` or slow threshold was crossed |");
    fixed(lines, "| `profiler_first_latest.csv` | scheduled/blocked/polling/GPU-wait/frame-budget/async counters |");
    fixed(lines, "| `profiler_lanes_latest.csv` | lane totals and share-of-time |");
    fixed(lines, "| `profiler_frame_budget_latest.csv` | explicit frame-budget misses with lane/frame/wait fields |");
    fixed(lines, "| `profiler_diagnostics_latest.csv` | warnings/errors emitted by profiler analysis |");
    fixed(lines, "");
    assert(string_texts(lines@) =~= start + csv_lines());
}

// ----------------------------------------------------------- diagnostics

/// The diagnostics the report lists at most, newest first.
pub const MD_DIAGNOSTICS_LIMIT: usize = 128;

/// One diagnostic line.
pub open spec fn diagnostic_line(g: DiagnosticDoc) -> Seq<char> {
    "- "@ + code(or_text(g.level, "info"@)) + " "@ + code(or_text(g.code, "diagnostic"@)) + ": "@
        + or_text(g.message, ""@)
}

/// The diagnostics, newest first, at most `MD_DIAGNOSTICS_LIMIT` of them.
pub open spec fn diagnostic_lines(rows: Option<Vec<DiagnosticDoc>>) -> Seq<Seq<char>> {
    seq!["## Diagnostics"@, ""@] + match rows {
        Some(v) => if v@.len() == 0 {
            seq!["No diagnostics recorded."@]
        } else {
            Seq::new(
                min_nat(v@.len(), MD_DIAGNOSTICS_LIMIT as nat),
                |k: int| diagnostic_line(v@[v@.len() - 1 - k]),
            )
        },
        None => Seq::empty(),
    }
}

fn diagnostic_text(g: &DiagnosticDoc) -> (r: String)
    ensures
        r@ == diagnostic_line(*g),
{
    let mut r = "- ".to_owned();
    let l = text_or(&g.level, "info");
    let c = code_of(l.as_str());
    push_str(&mut r, c.as_str());
    push_str(&mut r, " ");
    let k = text_or(&g.code, "diagnostic");
    let c = code_of(k.as_str());
    push_str(&mut r, c.as_str());
    push_str(&mut r, ": ");
    let m = text_or(&g.message, "");
    push_str(&mut r, m.as_str());
    assert(r@ =~= diagnostic_line(*g));
    r
}

fn push_diagnostics(lines: &mut Vec<String>, rows: &Option<Vec<DiagnosticDoc>>)
    ensures
        string_texts(final(lines)@) == string_texts(old(lines)@) + diagnostic_lines(*rows),
{
    let ghost start = string_texts(lines@);
    fixed(lines, "## Diagnostics");
    fixed(lines, "");
    match rows {
        Some(v) => {
            if v.len() == 0 {
                fixed(lines, "No diagnostics recorded.");
            } else {
                let n: usize = if v.len() < MD_DIAGNOSTICS_LIMIT {
                    v.len()
                } else {
                    MD_DIAGNOSTICS_LIMIT
                };
                let ghost mid = string_texts(lines@);
                let mut k: usize = 0;
                while k < n
                    invariant
                        k <= n,
                        n <= v@.len(),
                        string_texts(lines@) == mid + Seq::new(
                            k as nat,
                            |q: int| diagnostic_line(v@[v@.len() - 1 - q]),
                        ),
                    decreases n - k,
                {
                    push_line(lines, diagnostic_text(&v[v.len() - 1 - k]));
                    assert(Seq::new((k + 1) as nat, |q: int| diagnostic_line(v@[v@.len() - 1 - q]))
                        =~= Seq::new(k as nat, |q: int| diagnostic_line(v@[v@.len() - 1 - q])).push(
                        diagnostic_line(v@[v@.len() - 1 - k])));
                    k += 1;
                }
            }
        },
        None => {},
    }
    assert(string_texts(lines@) =~= start + diagnostic_lines(*rows));
}

// ---------------------------------------------------------------- report

/// The lines of the Markdown report, section by section.
pub open spec fn report_lines(d: ReportDoc) -> Seq<Seq<char>> {
    header_lines(d) + quick_lines(d) + summary_lines(d) + first_lines(d) + policy_lines(d)
        + percentile_lines(d) + chart_lines(
        "## Load chart — категории по суммарному времени"@,
        d.category_chart,
    ) + chart_lines("## Load chart — top offenders"@, d.offender_chart) + chart_lines(
        "## Load chart — lanes"@,
        d.lane_chart,
    ) + ranked_lines(
        "## Top offenders by total elapsed time"@,
        "| Rank | Offender | Source | Category | Calls | Total ms | Share | Avg ms | Max ms | Max load | Slow | Failed |"@,
        d.offenders@,
    ) + ranked_lines(
        "## Top methods by total elapsed time"@,
        "| Rank | Method | Source | Category | Calls | Total ms | Share | Avg ms | Max ms | Max load | Slow | Failed |"@,
        d.methods@,
    ) + job_lines("## Budget violations — что пробило кадр/лимит"@, d.budget_violations@)
        + frame_lines(d.frame_budget_violations@) + job_lines(
        "## Top single jobs by elapsed time"@,
        d.top_by_elapsed@,
    ) + job_lines("## Top single jobs by budget load"@, d.top_by_load@) + category_lines(
        d.categories@,
    ) + source_lines(d.sources@) + active_lines(d.active) + csv_lines() + diagnostic_lines(
        d.diagnostics,
    )
}

/// The Markdown text of the report: every line of `report_lines`, each
/// ended by a newline.
pub open spec fn markdown_text(d: ReportDoc) -> Seq<char> {
    lines_text(report_lines(d))
}

/// The Markdown report.
pub fn markdown_report(d: &ReportDoc) -> (r: String)
    ensures
        r@ == markdown_text(*d),
{
    let mut lines: Vec<String> = Vec::new();
    assert(string_texts(lines@) =~= Seq::<Seq<char>>::empty());
    push_header(&mut lines, d);
    push_quick(&mut lines, d);
    push_summary(&mut lines, d);
    push_first(&mut lines, d);
    push_policy(&mut lines, d);
    push_percentiles(&mut lines, d);
    push_chart(&mut lines, "## Load chart — категории по суммарному времени", &d.category_chart);
    push_chart(&mut lines, "## Load chart — top offenders", &d.offender_chart);
    push_chart(&mut lines, "## Load chart — lanes", &d.lane_chart);
    push_ranked(
        &mut lines,
        "## Top offenders by total elapsed time",
        "| Rank | Offender | Source | Category | Calls | Total ms | Share | Avg ms | Max ms | Max load | Slow | Failed |",
        &d.offenders,
    );
    push_ranked(
        &mut lines,
        "## Top methods by total elapsed time",
        "| Rank | Method | Source | Category | Calls | Total ms | Share | Avg ms | Max ms | Max load | Slow | Failed |",
        &d.methods,
    );
    push_jobs(&mut lines, "## Budget violations — что пробило кадр/лимит", &d.budget_violations);
    push_frames(&mut lines, &d.frame_budget_violations);
    push_jobs(&mut lines, "## Top single jobs by elapsed time", &d.top_by_elapsed);
    push_jobs(&mut lines, "## Top single jobs by budget load", &d.top_by_load);
    push_categories(&mut lines, &d.categories);
    push_sources(&mut lines, &d.sources);
    push_active(&mut lines, &d.active);
    push_csv_list(&mut lines);
    push_diagnostics(&mut lines, &d.diagnostics);
    assert(string_texts(lines@) =~= report_lines(*d));
    lines_of(&lines)
}

} // verus!
