//! Report file naming: the archive prefix, and which files and archive
//! members a report flush writes under which names.
use vstd::prelude::*;

use crate::text::{push_str, chars_of, is_alnum, is_ascii_alnum, string_of, strip_char, strip_chars, trim_chars, trim_seq};

verus! {

/// Characters an archive prefix keeps; every other becomes `_`.
pub open spec fn prefix_keeps(c: char) -> bool {
    is_ascii_alnum(c) || c == '-' || c == '_' || c == '.'
}

/// The prefix characters, with disallowed ones replaced by `_`.
pub open spec fn prefix_map(s: Seq<char>) -> Seq<char> {
    s.map_values(|c: char| if prefix_keeps(c) { c } else { '_' })
}

/// The archive prefix: trimmed, disallowed characters replaced by `_`,
/// stripped of surrounding `.` then of surrounding `_`; `profiler_report`
/// where nothing is left.
pub open spec fn safe_prefix_spec(value: Seq<char>) -> Seq<char> {
    let s = strip_char(strip_char(prefix_map(trim_seq(value)), '.'), '_');
    if s.len() == 0 {
        "profiler_report"@
    } else {
        s
    }
}

/// A file-name-safe archive prefix.
pub fn safe_archive_prefix(value: &str) -> (r: String)
    ensures
        r@ == safe_prefix_spec(value@),
{
    let v = chars_of(value);
    let t = trim_chars(v.as_slice());
    let mut mapped: Vec<char> = Vec::new();
    let mut i: usize = 0;
    while i < t.len()
        invariant
            i <= t.len(),
            mapped@ == prefix_map(t@.take(i as int)),
        decreases t.len() - i,
    {
        let c = t[i];
        if is_alnum(c) || c == '-' || c == '_' || c == '.' {
            mapped.push(c);
        } else {
            mapped.push('_');
        }
        assert(mapped@ =~= prefix_map(t@.take(i + 1)));
        i += 1;
    }
    assert(t@.take(t.len() as int) =~= t@);
    let a = strip_chars(mapped.as_slice(), '.');
    let b = strip_chars(a.as_slice(), '_');
    if b.len() == 0 {
        "profiler_report".to_owned()
    } else {
        string_of(b.as_slice())
    }
}

/// An archive prefix is non-empty, holds only ASCII letters, digits, `-`,
/// `_` and `.`, and neither starts nor ends with `_`.
pub proof fn lemma_safe_prefix_shape(value: Seq<char>)
    ensures
        ({
            let p = safe_prefix_spec(value);
            &&& p.len() > 0
            &&& p[0] != '_'
            &&& p.last() != '_'
            &&& forall|i: int| 0 <= i < p.len() ==> prefix_keeps(#[trigger] p[i])
        }),
{
    let m = prefix_map(trim_seq(value));
    assert forall|i: int| 0 <= i < m.len() implies prefix_keeps(#[trigger] m[i]) by {}
    let (a1, b1) = crate::text::lemma_strip_shape(m, '.');
    let d = strip_char(m, '.');
    let (a2, b2) = crate::text::lemma_strip_shape(d, '_');
    let e = strip_char(d, '_');
    if e.len() == 0 {
        reveal_strlit("profiler_report");
    } else {
        assert forall|i: int| 0 <= i < e.len() implies prefix_keeps(#[trigger] e[i]) by {
            assert(e[i] == d[a2 + i]);
            assert(d[a2 + i] == m[a1 + a2 + i]);
        }
    }
}

/// The largest CSV table a flush writes, in megabytes.
pub const CSV_LIMIT: usize = 100_000;

/// A CSV table of `len` bytes is within the limit of `CSV_LIMIT`
/// megabytes; a flush refuses a larger one.
pub fn csv_within_limit(len: usize) -> (r: bool)
    ensures
        r == (len <= CSV_LIMIT * 1024 * 1024),
{
    (len as u64) <= 100_000u64 * 1024 * 1024
}

/// The report outputs a flush writes, and the names of the compatibility
/// ("latest") files.
pub struct ReportOutputConfig {
    pub archive_prefix: String,
    pub write_json: bool,
    pub write_markdown: bool,
    pub write_csv: bool,
    pub write_archive: bool,
    pub include_latest_in_archive: bool,
    pub latest_json: String,
    pub latest_markdown: String,
    /// The latest-file names of the CSV tables, in the order of
    /// `csv_kinds`.
    pub latest_csv: Vec<String>,
}

/// The kinds of CSV tables a report writes, in order.
pub open spec fn csv_kinds() -> Seq<Seq<char>> {
    seq![
        "jobs"@,
        "categories"@,
        "sources"@,
        "top_offenders"@,
        "active_jobs"@,
        "diagnostics"@,
        "timeline"@,
        "methods"@,
        "budget_violations"@,
        "lanes"@,
        "profiler_first"@,
        "frame_budget"@,
    ]
}

/// The stems of the timestamped CSV file names, in the order of the kinds.
pub open spec fn csv_stems() -> Seq<Seq<char>> {
    seq![
        "profiler_jobs"@,
        "profiler_categories"@,
        "profiler_sources"@,
        "profiler_top_offenders"@,
        "profiler_active_jobs"@,
        "profiler_diagnostics"@,
        "profiler_timeline"@,
        "profiler_methods"@,
        "profiler_budget_violations"@,
        "profiler_lanes"@,
        "profiler_first"@,
        "profiler_frame_budget"@,
    ]
}

/// One CSV table's names.
pub struct CsvArtifactName {
    pub kind: String,
    pub latest_name: String,
    pub timestamped_name: String,
}

/// What an archive member holds.
#[derive(Clone, Copy, Debug)]
pub enum ArchiveSource {
    Index,
    Json,
    Markdown,
    /// The CSV table at this position of the plan.
    Csv(usize),
}

/// One member of the report archive.
pub struct ArchiveEntry {
    pub name: String,
    pub source: ArchiveSource,
}

/// The files a report flush writes: the archive's name, the timestamped
/// JSON and Markdown names, the CSV tables, and the archive's members in
/// order (none where no archive is written).
pub struct ReportFilePlan {
    pub archive_name: String,
    pub json_entry_name: String,
    pub markdown_entry_name: String,
    pub csv: Vec<CsvArtifactName>,
    pub archive_entries: Vec<ArchiveEntry>,
}

/// An archive member as its name and source.
pub open spec fn entry_of(e: ArchiveEntry) -> (Seq<char>, ArchiveSource) {
    (e.name@, e.source)
}

/// A member under its timestamped name, then under its latest name where
/// latest files are duplicated into the archive.
pub open spec fn member_pair(
    stamped: Seq<char>,
    latest: Seq<char>,
    source: ArchiveSource,
    include_latest: bool,
) -> Seq<(Seq<char>, ArchiveSource)> {
    if include_latest {
        seq![(stamped, source), (latest, source)]
    } else {
        seq![(stamped, source)]
    }
}

/// The archive members of the CSV tables.
pub open spec fn csv_members(csv: Seq<CsvArtifactName>, include_latest: bool) -> Seq<
    (Seq<char>, ArchiveSource),
>
    decreases csv.len(),
{
    if csv.len() == 0 {
        Seq::empty()
    } else {
        csv_members(csv.drop_last(), include_latest) + member_pair(
            csv.last().timestamped_name@,
            csv.last().latest_name@,
            ArchiveSource::Csv((csv.len() - 1) as usize),
            include_latest,
        )
    }
}

/// The archive's members: the index, then the JSON and Markdown reports
/// and the CSV tables that are written, each also under its latest name
/// where latest files are duplicated into the archive.
pub open spec fn archive_members(cfg: ReportOutputConfig, plan: ReportFilePlan) -> Seq<
    (Seq<char>, ArchiveSource),
> {
    if !cfg.write_archive {
        Seq::empty()
    } else {
        seq![("index.json"@, ArchiveSource::Index)] + (if cfg.write_json {
            member_pair(
                plan.json_entry_name@,
                cfg.latest_json@,
                ArchiveSource::Json,
                cfg.include_latest_in_archive,
            )
        } else {
            Seq::empty()
        }) + (if cfg.write_markdown {
            member_pair(
                plan.markdown_entry_name@,
                cfg.latest_markdown@,
                ArchiveSource::Markdown,
                cfg.include_latest_in_archive,
            )
        } else {
            Seq::empty()
        }) + csv_members(plan.csv@, cfg.include_latest_in_archive)
    }
}

/// The plan names every file after the creation stamp `utc`.
pub open spec fn plan_ok(cfg: ReportOutputConfig, utc: Seq<char>, plan: ReportFilePlan) -> bool {
    &&& plan.archive_name@ == safe_prefix_spec(cfg.archive_prefix@) + "_"@ + utc + ".zip"@
    &&& plan.json_entry_name@ == "profiler_report_"@ + utc + ".json"@
    &&& plan.markdown_entry_name@ == "profiler_report_"@ + utc + ".md"@
    &&& plan.csv@.len() == (if cfg.write_csv {
        12nat
    } else {
        0nat
    })
    &&& forall|k: int|
        0 <= k < plan.csv@.len() ==> {
            &&& (#[trigger] plan.csv@[k]).kind@ == csv_kinds()[k]
            &&& plan.csv@[k].latest_name@ == cfg.latest_csv@[k]@
            &&& plan.csv@[k].timestamped_name@ == csv_stems()[k] + "_"@ + utc + ".csv"@
        }
    &&& plan.archive_entries@.map_values(|e: ArchiveEntry| entry_of(e)) == archive_members(cfg, plan)
}

/// `stem`, `_`, the stamp and `suffix`.
fn stamped(stem: &str, utc: &str, suffix: &str) -> (r: String)
    ensures
        r@ == stem@ + "_"@ + utc@ + suffix@,
{
    let mut s = String::new();
    push_str(&mut s, stem);
    push_str(&mut s, "_");
    push_str(&mut s, utc);
    push_str(&mut s, suffix);
    s
}

/// Appends a member, and its latest-name twin where asked.
fn push_member(
    out: &mut Vec<ArchiveEntry>,
    stamped_name: &String,
    latest: &String,
    source: ArchiveSource,
    include_latest: bool,
)
    ensures
        final(out)@.map_values(|e: ArchiveEntry| entry_of(e)) == old(out)@.map_values(
            |e: ArchiveEntry| entry_of(e),
        ) + member_pair(stamped_name@, latest@, source, include_latest),
{
    let ghost before = out@.map_values(|e: ArchiveEntry| entry_of(e));
    out.push(ArchiveEntry { name: stamped_name.clone(), source });
    if include_latest {
        out.push(ArchiveEntry { name: latest.clone(), source });
    }
    assert(out@.map_values(|e: ArchiveEntry| entry_of(e)) =~= before + member_pair(
        stamped_name@,
        latest@,
        source,
        include_latest,
    ));
}

/// Plans the files of a report created at `created_utc`: the archive
/// `<prefix>_<utc>.zip`, the members `profiler_report_<utc>.json` and
/// `.md`, and one timestamped CSV file per table kind.
pub fn plan_report_files(cfg: &ReportOutputConfig, created_utc: &str) -> (r: ReportFilePlan)
    requires
        cfg.latest_csv@.len() == 12,
    ensures
        plan_ok(*cfg, created_utc@, r),
{
    let prefix = safe_archive_prefix(cfg.archive_prefix.as_str());
    let archive_name = stamped(prefix.as_str(), created_utc, ".zip");
    let json_entry_name = stamped("profiler_report", created_utc, ".json");
    let markdown_entry_name = stamped("profiler_report", created_utc, ".md");
    proof {
        reveal_strlit("profiler_report");
        reveal_strlit("profiler_report_");
        reveal_strlit("_");
    }
    assert(json_entry_name@ =~= "profiler_report_"@ + created_utc@ + ".json"@);
    assert(markdown_entry_name@ =~= "profiler_report_"@ + created_utc@ + ".md"@);
    let kinds = [
        "jobs",
        "categories",
        "sources",
        "top_offenders",
        "active_jobs",
        "diagnostics",
        "timeline",
        "methods",
        "budget_violations",
        "lanes",
        "profiler_first",
        "frame_budget",
    ];
    let stems = [
        "profiler_jobs",
        "profiler_categories",
        "profiler_sources",
        "profiler_top_offenders",
        "profiler_active_jobs",
        "profiler_diagnostics",
        "profiler_timeline",
        "profiler_methods",
        "profiler_budget_violations",
        "profiler_lanes",
        "profiler_first",
        "profiler_frame_budget",
    ];
    assert(kinds@.map_values(|k: &str| k@) =~= csv_kinds());
    assert(stems@.map_values(|k: &str| k@) =~= csv_stems());
    let mut csv: Vec<CsvArtifactName> = Vec::new();
    if cfg.write_csv {
        let mut k: usize = 0;
        while k < 12
            invariant
                k <= 12,
                cfg.latest_csv@.len() == 12,
                kinds@.map_values(|q: &str| q@) == csv_kinds(),
                stems@.map_values(|q: &str| q@) == csv_stems(),
                csv@.len() == k,
                forall|q: int|
                    0 <= q < k ==> {
                        &&& (#[trigger] csv@[q]).kind@ == csv_kinds()[q]
                        &&& csv@[q].latest_name@ == cfg.latest_csv@[q]@
                        &&& csv@[q].timestamped_name@ == csv_stems()[q] + "_"@ + created_utc@
                            + ".csv"@
                    },
            decreases 12 - k,
        {
            assert(csv_kinds()[k as int] == kinds@[k as int]@);
            assert(csv_stems()[k as int] == stems@[k as int]@);
            let entry = CsvArtifactName {
                kind: kinds[k].to_owned(),
                latest_name: cfg.latest_csv[k].clone(),
                timestamped_name: stamped(stems[k], created_utc, ".csv"),
            };
            csv.push(entry);
            k += 1;
        }
    }
    let mut entries: Vec<ArchiveEntry> = Vec::new();
    if cfg.write_archive {
        entries.push(ArchiveEntry { name: "index.json".to_owned(), source: ArchiveSource::Index });
        assert(entries@.map_values(|e: ArchiveEntry| entry_of(e)) =~= seq![
            ("index.json"@, ArchiveSource::Index),
        ]);
        let ghost a0 = entries@.map_values(|e: ArchiveEntry| entry_of(e));
        if cfg.write_json {
            push_member(
                &mut entries,
                &json_entry_name,
                &cfg.latest_json,
                ArchiveSource::Json,
                cfg.include_latest_in_archive,
            );
        } else {
            assert(a0 + Seq::<(Seq<char>, ArchiveSource)>::empty() =~= a0);
        }
        let ghost a1 = entries@.map_values(|e: ArchiveEntry| entry_of(e));
        if cfg.write_markdown {
            push_member(
                &mut entries,
                &markdown_entry_name,
                &cfg.latest_markdown,
                ArchiveSource::Markdown,
                cfg.include_latest_in_archive,
            );
        } else {
            assert(a1 + Seq::<(Seq<char>, ArchiveSource)>::empty() =~= a1);
        }
        let ghost a2 = entries@.map_values(|e: ArchiveEntry| entry_of(e));
        let mut k: usize = 0;
        assert(csv@.take(0) =~= Seq::<CsvArtifactName>::empty());
        assert(a2 + csv_members(csv@.take(0), cfg.include_latest_in_archive) =~= a2);
        while k < csv.len()
            invariant
                k <= csv@.len(),
                entries@.map_values(|e: ArchiveEntry| entry_of(e)) == a2 + csv_members(
                    csv@.take(k as int),
                    cfg.include_latest_in_archive,
                ),
            decreases csv@.len() - k,
        {
            assert(csv@.take(k + 1).drop_last() =~= csv@.take(k as int));
            assert(csv@.take(k + 1).last() == csv@[k as int]);
            push_member(
                &mut entries,
                &csv[k].timestamped_name,
                &csv[k].latest_name,
                ArchiveSource::Csv(k),
                cfg.include_latest_in_archive,
            );
            k += 1;
        }
        assert(csv@.take(csv@.len() as int) =~= csv@);
    } else {
        assert(entries@.map_values(|e: ArchiveEntry| entry_of(e)) =~= Seq::<(Seq<char>, ArchiveSource)>::empty());
    }
    assert(archive_name@ == safe_prefix_spec(cfg.archive_prefix@) + "_"@ + created_utc@ + ".zip"@);
    ReportFilePlan { archive_name, json_entry_name, markdown_entry_name, csv, archive_entries: entries }
}

} // verus!
