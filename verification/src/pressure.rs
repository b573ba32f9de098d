//! Pressure read-models over the completed history: the samples that a
//! control plane (asset streaming, population) leaves in its events,
//! ordered by frame and summarised. The profiler only observes; nothing
//! here feeds back into a scheduler.
use std::collections::VecDeque;

use vstd::prelude::*;
use vstd::relations::{sorted_by, total_ordering};

use crate::metadata::{meta_get, number_u64_at, number_u64_value_at, text_at, text_value_at, MetaValue};
use crate::records::JobRecord;
use crate::text::str_eq;

verus! {

/// The most samples a series keeps: the latest frames.
pub const MAX_SERIES_SAMPLES: usize = 512;

/// The sample schema of the asset streaming control plane.
pub const STREAMING_SAMPLE_SCHEMA: &'static str = "newengine.assets.streaming.control_plane.profiler.v1";

/// The sample schema of the population control plane.
pub const POPULATION_SAMPLE_SCHEMA: &'static str = "newengine.population.control_plane.profiler.v1";

/// Earlier frames first; within a frame, earlier records first.
pub open spec fn frame_order(a: (u64, usize), b: (u64, usize)) -> bool {
    a.0 < b.0 || (a.0 == b.0 && a.1 <= b.1)
}

/// `frame_order` as a relation.
pub open spec fn frame_leq() -> spec_fn((u64, usize), (u64, usize)) -> bool {
    |a: (u64, usize), b: (u64, usize)| frame_order(a, b)
}

proof fn lemma_frame_order_total()
    ensures
        total_ordering(frame_leq()),
{
    let r = frame_leq();
    assert forall|x: (u64, usize), y: (u64, usize)| #[trigger] r(x, y) && #[trigger] r(y, x) implies x
        == y by {}
    assert forall|x: (u64, usize), y: (u64, usize), z: (u64, usize)|
        #[trigger] r(x, y) && #[trigger] r(y, z) implies r(x, z) by {}
}

/// The frame of a record that is a sample of `schema` with a `section`
/// object: the record's frame, else the metadata's `frame_id`.
pub open spec fn sample_frame<M>(job: JobRecord<M>, schema: Seq<char>, section: Seq<char>) -> Option<u64> {
    let es = job.metadata.entries@;
    if text_at(es, "/schema"@) == Some(schema) && meta_get(es, section) is Some {
        match job.frame_id {
            Some(f) => Some(f),
            None => number_u64_at(es, "/frame_id"@),
        }
    } else {
        None
    }
}

/// The samples among the records as (frame, position) keys, in record
/// order.
pub open spec fn sample_keys<M>(jobs: Seq<JobRecord<M>>, schema: Seq<char>, section: Seq<char>) -> Seq<
    (u64, usize),
>
    decreases jobs.len(),
{
    if jobs.len() == 0 {
        Seq::empty()
    } else {
        let rest = sample_keys(jobs.drop_last(), schema, section);
        match sample_frame(jobs.last(), schema, section) {
            Some(f) => rest.push((f, (jobs.len() - 1) as usize)),
            None => rest,
        }
    }
}

/// The last `MAX_SERIES_SAMPLES` of a sequence.
pub open spec fn latest(s: Seq<(u64, usize)>) -> Seq<(u64, usize)> {
    if s.len() > MAX_SERIES_SAMPLES {
        s.skip(s.len() - MAX_SERIES_SAMPLES)
    } else {
        s
    }
}

/// The series of a control plane: its samples ordered by frame (records of
/// one frame in record order), the latest frames kept.
pub open spec fn series_spec<M>(jobs: Seq<JobRecord<M>>, schema: Seq<char>, section: Seq<char>) -> Seq<
    (u64, usize),
> {
    latest(sample_keys(jobs, schema, section).sort_by(frame_leq()))
}

/// The frame of a sample record.
fn sample_frame_of<M>(job: &JobRecord<M>, schema: &str, section: &str) -> (r: Option<u64>)
    ensures
        r == sample_frame(*job, schema@, section@),
{
    let s = text_value_at(&job.metadata, "/schema");
    let matches = match &s {
        Some(t) => str_eq(t.as_str(), schema),
        None => false,
    };
    if !matches || job.metadata.get(section).is_none() {
        return None;
    }
    match job.frame_id {
        Some(f) => Some(f),
        None => number_u64_value_at(&job.metadata, "/frame_id"),
    }
}

/// Inserts a key into a sorted list, after every key it does not precede.
fn insert_sorted(out: &mut Vec<(u64, usize)>, key: (u64, usize))
    requires
        sorted_by(old(out)@, frame_leq()),
        forall|i: int| 0 <= i < old(out)@.len() ==> (#[trigger] old(out)@[i]).1 < key.1,
    ensures
        sorted_by(final(out)@, frame_leq()),
        final(out)@.to_multiset() == old(out)@.to_multiset().insert(key),
        final(out)@.len() == old(out)@.len() + 1,
        forall|i: int| 0 <= i < final(out)@.len() ==> (#[trigger] final(out)@[i]).1 <= key.1,
{
    let ghost s = out@;
    let mut p: usize = 0;
    while p < out.len() && out[p].0 <= key.0
        invariant
            p <= out@.len(),
            out@ == s,
            forall|i: int| 0 <= i < p ==> (#[trigger] s[i]).0 <= key.0,
        decreases out@.len() - p,
    {
        p += 1;
    }
    proof {
        assert forall|m: int| p <= m < s.len() implies (#[trigger] s[m]).0 > key.0 by {
            if m > p {
                assert(frame_leq()(s[p as int], s[m]));
            }
        }
    }
    out.insert(p, key);
    proof {
        vstd::seq_lib::to_multiset_insert(s, p as int, key);
        let t = out@;
        assert(t == s.insert(p as int, key));
        assert forall|i: int, j: int| 0 <= i < j < t.len() implies #[trigger] frame_leq()(
            t[i],
            t[j],
        ) by {
            if j < p {
                assert(t[i] == s[i] && t[j] == s[j]);
                assert(frame_leq()(s[i], s[j]));
            } else if j == p {
                assert(t[i] == s[i]);
                assert(s[i].0 <= key.0 && s[i].1 < key.1);
            } else if i == p {
                assert(t[j] == s[j - 1]);
                assert(s[j - 1].0 > key.0);
            } else if i < p {
                assert(t[i] == s[i] && t[j] == s[j - 1]);
                assert(frame_leq()(s[i], s[j - 1]));
            } else {
                assert(t[i] == s[i - 1] && t[j] == s[j - 1]);
                assert(frame_leq()(s[i - 1], s[j - 1]));
            }
        }
    }
}

/// The series of a control plane's samples among the completed records;
/// see `series_spec`.
pub fn pressure_series<M>(jobs: &VecDeque<JobRecord<M>>, schema: &str, section: &str) -> (r: Vec<(u64, usize)>)
    ensures
        r@ == series_spec(jobs@, schema@, section@),
        forall|k: int| 0 <= k < r@.len() ==> (#[trigger] r@[k]).1 < jobs@.len(),
{
    let ghost js = jobs@;
    let mut out: Vec<(u64, usize)> = Vec::new();
    let mut i: usize = 0;
    assert(js.take(0) =~= Seq::<JobRecord<M>>::empty());
    while i < jobs.len()
        invariant
            i <= js.len(),
            js == jobs@,
            sorted_by(out@, frame_leq()),
            out@.to_multiset() == sample_keys(js.take(i as int), schema@, section@).to_multiset(),
            forall|k: int| 0 <= k < out@.len() ==> (#[trigger] out@[k]).1 < i,
        decreases js.len() - i,
    {
        assert(js.take(i + 1).drop_last() =~= js.take(i as int));
        assert(js.take(i + 1).last() == js[i as int]);
        match sample_frame_of(&jobs[i], schema, section) {
            Some(f) => {
                let ghost before = out@;
                insert_sorted(&mut out, (f, i));
                proof {
                    let ks = sample_keys(js.take(i as int), schema@, section@);
                    assert(sample_keys(js.take(i + 1), schema@, section@) == ks.push((f, i)));
                    vstd::seq_lib::to_multiset_build(ks, (f, i));
                }
            },
            None => {},
        }
        i += 1;
    }
    assert(js.take(js.len() as int) =~= js);
    let ghost keys = sample_keys(js, schema@, section@);
    proof {
        lemma_frame_order_total();
        keys.lemma_sort_by_ensures(frame_leq());
        vstd::seq_lib::lemma_sorted_unique(out@, keys.sort_by(frame_leq()), frame_leq());
    }
    let n = out.len();
    if n > MAX_SERIES_SAMPLES {
        let mut kept: Vec<(u64, usize)> = Vec::new();
        let mut k: usize = n - MAX_SERIES_SAMPLES;
        while k < n
            invariant
                n == out@.len(),
                n > MAX_SERIES_SAMPLES,
                n - MAX_SERIES_SAMPLES <= k <= n,
                kept@ == out@.subrange(n - MAX_SERIES_SAMPLES, k as int),
            decreases n - k,
        {
            kept.push(out[k]);
            assert(kept@ =~= out@.subrange(n - MAX_SERIES_SAMPLES, k + 1));
            k += 1;
        }
        assert(kept@ =~= out@.skip(n - MAX_SERIES_SAMPLES));
        kept
    } else {
        out
    }
}

/// An unsigned field of a sample's metadata, zero where it is missing or no
/// such number.
pub open spec fn field_u64(es: Seq<crate::metadata::MetaEntry>, p: Seq<char>) -> u64 {
    match number_u64_at(es, p) {
        Some(v) => v,
        None => 0,
    }
}

/// A boolean field of a sample's metadata, false where it is missing or no
/// boolean.
pub open spec fn field_bool(es: Seq<crate::metadata::MetaEntry>, p: Seq<char>) -> bool {
    match meta_get(es, p) {
        Some(MetaValue::Bool(b)) => b,
        _ => false,
    }
}

/// One sample of a series: its frame, the position of its record, and the
/// unsigned and boolean fields read from the record's metadata.
pub struct PressureSample {
    pub frame_id: u64,
    pub job: usize,
    pub values: Vec<u64>,
    pub flags: Vec<bool>,
}

/// The sample read at `key` along the field paths.
pub open spec fn sample_ok<M>(
    jobs: Seq<JobRecord<M>>,
    key: (u64, usize),
    values: Seq<Seq<char>>,
    flags: Seq<Seq<char>>,
    s: PressureSample,
) -> bool {
    let es = jobs[key.1 as int].metadata.entries@;
    &&& s.frame_id == key.0
    &&& s.job == key.1
    &&& s.values@.len() == values.len()
    &&& forall|k: int| 0 <= k < values.len() ==> #[trigger] s.values@[k] == field_u64(es, values[k])
    &&& s.flags@.len() == flags.len()
    &&& forall|k: int| 0 <= k < flags.len() ==> #[trigger] s.flags@[k] == field_bool(es, flags[k])
}

/// Reads the samples of a series.
pub fn read_samples<M>(
    jobs: &VecDeque<JobRecord<M>>,
    series: &Vec<(u64, usize)>,
    values: &[&str],
    flags: &[&str],
) -> (r: Vec<PressureSample>)
    requires
        forall|k: int| 0 <= k < series@.len() ==> (#[trigger] series@[k]).1 < jobs@.len(),
    ensures
        r@.len() == series@.len(),
        forall|q: int|
            0 <= q < r@.len() ==> sample_ok(
                jobs@,
                series@[q],
                values@.map_values(|p: &str| p@),
                flags@.map_values(|p: &str| p@),
                #[trigger] r@[q],
            ),
{
    let ghost vp = values@.map_values(|p: &str| p@);
    let ghost fp = flags@.map_values(|p: &str| p@);
    let mut out: Vec<PressureSample> = Vec::new();
    let mut q: usize = 0;
    while q < series.len()
        invariant
            q <= series@.len(),
            forall|k: int| 0 <= k < series@.len() ==> (#[trigger] series@[k]).1 < jobs@.len(),
            vp == values@.map_values(|p: &str| p@),
            fp == flags@.map_values(|p: &str| p@),
            out@.len() == q,
            forall|x: int| 0 <= x < q ==> sample_ok(jobs@, series@[x], vp, fp, #[trigger] out@[x]),
        decreases series@.len() - q,
    {
        let (frame, pos) = series[q];
        let job = &jobs[pos];
        let ghost es = job.metadata.entries@;
        let mut vs: Vec<u64> = Vec::new();
        let mut k: usize = 0;
        while k < values.len()
            invariant
                k <= values@.len(),
                vp == values@.map_values(|p: &str| p@),
                es == job.metadata.entries@,
                vs@.len() == k,
                forall|x: int| 0 <= x < k ==> #[trigger] vs@[x] == field_u64(es, vp[x]),
            decreases values@.len() - k,
        {
            let v = match number_u64_value_at(&job.metadata, values[k]) {
                Some(v) => v,
                None => 0,
            };
            vs.push(v);
            k += 1;
        }
        let mut fs: Vec<bool> = Vec::new();
        let mut k: usize = 0;
        while k < flags.len()
            invariant
                k <= flags@.len(),
                fp == flags@.map_values(|p: &str| p@),
                es == job.metadata.entries@,
                fs@.len() == k,
                forall|x: int| 0 <= x < k ==> #[trigger] fs@[x] == field_bool(es, fp[x]),
            decreases flags@.len() - k,
        {
            let b = match job.metadata.get(flags[k]) {
                Some(MetaValue::Bool(b)) => b,
                _ => false,
            };
            fs.push(b);
            k += 1;
        }
        let s = PressureSample { frame_id: frame, job: pos, values: vs, flags: fs };
        out.push(s);
        assert(sample_ok(jobs@, series@[q as int], vp, fp, out@[q as int]));
        q += 1;
    }
    out
}

/// The largest value of field `k` over the samples, zero for none.
pub open spec fn peak(samples: Seq<PressureSample>, k: int) -> u64
    decreases samples.len(),
{
    if samples.len() == 0 {
        0
    } else {
        let rest = peak(samples.drop_last(), k);
        let v = samples.last().values@[k];
        if v > rest {
            v
        } else {
            rest
        }
    }
}

/// The sum of field `k` over the samples.
pub open spec fn total(samples: Seq<PressureSample>, k: int) -> int
    decreases samples.len(),
{
    if samples.len() == 0 {
        0
    } else {
        total(samples.drop_last(), k) + samples.last().values@[k]
    }
}

proof fn lemma_total_prefix(samples: Seq<PressureSample>, k: int, n: int)
    requires
        0 <= n <= samples.len(),
    ensures
        0 <= total(samples.take(n), k) <= total(samples, k),
    decreases samples.len() - n,
{
    if n < samples.len() {
        lemma_total_prefix(samples, k, n + 1);
        assert(samples.take(n + 1).drop_last() =~= samples.take(n));
        assert(samples.take(n + 1).last() == samples[n]);
        assert(total(samples.take(n + 1), k) == total(samples.take(n), k)
            + samples[n].values@[k]);
        lemma_total_nonneg(samples.take(n), k);
    } else {
        assert(samples.take(n) =~= samples);
        lemma_total_nonneg(samples, k);
    }
}

proof fn lemma_total_nonneg(samples: Seq<PressureSample>, k: int)
    ensures
        0 <= total(samples, k),
    decreases samples.len(),
{
    if samples.len() > 0 {
        lemma_total_nonneg(samples.drop_last(), k);
    }
}

/// The largest value of field `k` over the samples.
pub fn peak_of(samples: &Vec<PressureSample>, k: usize) -> (r: u64)
    requires
        forall|q: int| 0 <= q < samples@.len() ==> k < (#[trigger] samples@[q]).values@.len(),
    ensures
        r == peak(samples@, k as int),
{
    let mut m: u64 = 0;
    let mut q: usize = 0;
    assert(samples@.take(0) =~= Seq::<PressureSample>::empty());
    while q < samples.len()
        invariant
            q <= samples@.len(),
            forall|x: int| 0 <= x < samples@.len() ==> k < (#[trigger] samples@[x]).values@.len(),
            m == peak(samples@.take(q as int), k as int),
        decreases samples@.len() - q,
    {
        assert(samples@.take(q + 1).drop_last() =~= samples@.take(q as int));
        assert(samples@.take(q + 1).last() == samples@[q as int]);
        let v = samples[q].values[k];
        if v > m {
            m = v;
        }
        q += 1;
    }
    assert(samples@.take(samples@.len() as int) =~= samples@);
    m
}

/// The sum of field `k` over the samples, where it fits.
pub fn total_of(samples: &Vec<PressureSample>, k: usize) -> (r: u64)
    requires
        forall|q: int| 0 <= q < samples@.len() ==> k < (#[trigger] samples@[q]).values@.len(),
        total(samples@, k as int) <= u64::MAX,
    ensures
        r == total(samples@, k as int),
{
    let mut t: u64 = 0;
    let mut q: usize = 0;
    assert(samples@.take(0) =~= Seq::<PressureSample>::empty());
    while q < samples.len()
        invariant
            q <= samples@.len(),
            forall|x: int| 0 <= x < samples@.len() ==> k < (#[trigger] samples@[x]).values@.len(),
            total(samples@, k as int) <= u64::MAX,
            t == total(samples@.take(q as int), k as int),
        decreases samples@.len() - q,
    {
        assert(samples@.take(q + 1).drop_last() =~= samples@.take(q as int));
        assert(samples@.take(q + 1).last() == samples@[q as int]);
        proof {
            lemma_total_prefix(samples@, k as int, q + 1);
        }
        t = t + samples[q].values[k];
        q += 1;
    }
    assert(samples@.take(samples@.len() as int) =~= samples@);
    t
}

/// The sum of a field over the records of a series.
pub open spec fn series_total<M>(jobs: Seq<JobRecord<M>>, series: Seq<(u64, usize)>, p: Seq<char>) -> int
    decreases series.len(),
{
    if series.len() == 0 {
        0
    } else {
        series_total(jobs, series.drop_last(), p) + field_u64(
            jobs[series.last().1 as int].metadata.entries@,
            p,
        )
    }
}

proof fn lemma_total_is_series_total<M>(
    jobs: Seq<JobRecord<M>>,
    series: Seq<(u64, usize)>,
    values: Seq<Seq<char>>,
    flags: Seq<Seq<char>>,
    samples: Seq<PressureSample>,
    k: int,
)
    requires
        samples.len() == series.len(),
        0 <= k < values.len(),
        forall|q: int| 0 <= q < samples.len() ==> sample_ok(jobs, series[q], values, flags, #[trigger] samples[q]),
    ensures
        total(samples, k) == series_total(jobs, series, values[k]),
    decreases samples.len(),
{
    if samples.len() > 0 {
        let n = samples.len() - 1;
        assert forall|q: int| 0 <= q < samples.drop_last().len() implies sample_ok(
            jobs,
            series.drop_last()[q],
            values,
            flags,
            #[trigger] samples.drop_last()[q],
        ) by {
            assert(samples.drop_last()[q] == samples[q]);
            assert(series.drop_last()[q] == series[q]);
        }
        lemma_total_is_series_total(jobs, series.drop_last(), values, flags, samples.drop_last(), k);
        assert(sample_ok(jobs, series[n], values, flags, samples[n]));
    }
}

/// The streaming pressure read-model: the series of streaming samples
/// (their unsigned fields in the order of `streaming_fields`) and its
/// summary. The ratios and latencies the samples hold as floating-point
/// numbers stay in the records, at the sample's position.
pub struct StreamingPressure {
    pub series: Vec<PressureSample>,
    pub peak_pending_assets: u64,
    pub peak_over_budget_bytes: u64,
    pub peak_load_latency_frames: u64,
    pub total_deadline_misses: u64,
    pub provider_failure_observations: u64,
    pub completed_loads_observed: u64,
}

/// The unsigned fields of a streaming sample, in order.
pub open spec fn streaming_fields() -> Seq<Seq<char>> {
    seq![
        "/streaming/budget_bytes"@,
        "/streaming/committed_bytes"@,
        "/streaming/projected_resident_bytes"@,
        "/streaming/pending_assets"@,
        "/streaming/pending_demands"@,
        "/streaming/in_flight_assets"@,
        "/streaming/in_flight_bytes"@,
        "/streaming/over_budget_bytes"@,
        "/streaming/deadline_misses"@,
        "/streaming/total_deadline_misses"@,
        "/streaming/provider_failures"@,
        "/streaming/admissions_dispatched"@,
        "/streaming/evictions_dispatched"@,
        "/streaming/completed_loads"@,
        "/streaming/max_load_latency_frames"@,
    ]
}

/// The series of streaming samples.
pub open spec fn streaming_series<M>(jobs: Seq<JobRecord<M>>) -> Seq<(u64, usize)> {
    series_spec(jobs, STREAMING_SAMPLE_SCHEMA@, "/streaming"@)
}

/// Builds the streaming pressure read-model from the completed records:
/// their streaming samples by frame, the latest kept, with the peaks of
/// pending assets, over-budget bytes, load latency and total deadline
/// misses, and the sums of provider failures and completed loads.
pub fn build_streaming_pressure<M>(jobs: &VecDeque<JobRecord<M>>) -> (r: StreamingPressure)
    requires
        series_total(jobs@, streaming_series(jobs@), "/streaming/provider_failures"@) <= u64::MAX,
        series_total(jobs@, streaming_series(jobs@), "/streaming/completed_loads"@) <= u64::MAX,
    ensures
        r.series@.len() == streaming_series(jobs@).len(),
        forall|q: int|
            0 <= q < r.series@.len() ==> sample_ok(
                jobs@,
                streaming_series(jobs@)[q],
                streaming_fields(),
                Seq::empty(),
                #[trigger] r.series@[q],
            ),
        r.peak_pending_assets == peak(r.series@, 3),
        r.peak_over_budget_bytes == peak(r.series@, 7),
        r.total_deadline_misses == peak(r.series@, 9),
        r.peak_load_latency_frames == peak(r.series@, 14),
        r.provider_failure_observations == series_total(
            jobs@,
            streaming_series(jobs@),
            "/streaming/provider_failures"@,
        ),
        r.completed_loads_observed == series_total(
            jobs@,
            streaming_series(jobs@),
            "/streaming/completed_loads"@,
        ),
{
    let series = pressure_series(jobs, STREAMING_SAMPLE_SCHEMA, "/streaming");
    let fields = [
        "/streaming/budget_bytes",
        "/streaming/committed_bytes",
        "/streaming/projected_resident_bytes",
        "/streaming/pending_assets",
        "/streaming/pending_demands",
        "/streaming/in_flight_assets",
        "/streaming/in_flight_bytes",
        "/streaming/over_budget_bytes",
        "/streaming/deadline_misses",
        "/streaming/total_deadline_misses",
        "/streaming/provider_failures",
        "/streaming/admissions_dispatched",
        "/streaming/evictions_dispatched",
        "/streaming/completed_loads",
        "/streaming/max_load_latency_frames",
    ];
    let no_flags: [&str; 0] = [];
    assert(fields@.map_values(|p: &str| p@) =~= streaming_fields());
    assert(no_flags@.map_values(|p: &str| p@) =~= Seq::<Seq<char>>::empty());
    let samples = read_samples(jobs, &series, &fields, &no_flags);
    assert forall|q: int| 0 <= q < samples@.len() implies 15 == (#[trigger] samples@[q]).values@.len() by {
        assert(sample_ok(
            jobs@,
            series@[q],
            streaming_fields(),
            Seq::empty(),
            samples@[q],
        ));
    }
    proof {
        lemma_total_is_series_total(jobs@, series@, streaming_fields(), Seq::empty(), samples@, 10);
        lemma_total_is_series_total(jobs@, series@, streaming_fields(), Seq::empty(), samples@, 13);
    }
    let peak_pending_assets = peak_of(&samples, 3);
    let peak_over_budget_bytes = peak_of(&samples, 7);
    let total_deadline_misses = peak_of(&samples, 9);
    let peak_load_latency_frames = peak_of(&samples, 14);
    let provider_failure_observations = total_of(&samples, 10);
    let completed_loads_observed = total_of(&samples, 13);
    StreamingPressure {
        series: samples,
        peak_pending_assets,
        peak_over_budget_bytes,
        peak_load_latency_frames,
        total_deadline_misses,
        provider_failure_observations,
        completed_loads_observed,
    }
}

/// The population pressure read-model: the series of population samples
/// (their unsigned fields in the order of `population_fields`, their
/// `teleport_rebuild` flag) and its summary. The pressures and density
/// scales the samples hold as floating-point numbers stay in the records,
/// at the sample's position.
pub struct PopulationPressure {
    pub series: Vec<PressureSample>,
    pub peak_creation_debt: u64,
    pub peak_destruction_debt: u64,
    pub total_spawn_deferred: u64,
    pub total_retire_deferred: u64,
    pub total_starvation_promotions: u64,
    pub peak_model_pressure: u64,
    pub teleport_rebuilds_total: u64,
}

/// The unsigned fields of a population sample, in order.
pub open spec fn population_fields() -> Seq<Seq<char>> {
    seq![
        "/population/subjects"@,
        "/population/managed_subjects"@,
        "/population/protected_subjects"@,
        "/population/spawn_requested"@,
        "/population/spawn_admitted"@,
        "/population/spawn_deferred"@,
        "/population/retire_requested"@,
        "/population/retire_admitted"@,
        "/population/retire_deferred"@,
        "/population/creation_debt"@,
        "/population/destruction_debt"@,
        "/population/starvation_promotions"@,
        "/population/region_quota_clips"@,
        "/population/teleport_rebuilds_total"@,
        "/population/model_pressure_rows"@,
        "/population/peak_model_pressure"@,
    ]
}

/// The series of population samples.
pub open spec fn population_series<M>(jobs: Seq<JobRecord<M>>) -> Seq<(u64, usize)> {
    series_spec(jobs, POPULATION_SAMPLE_SCHEMA@, "/population"@)
}

/// Builds the population pressure read-model from the completed records:
/// their population samples by frame, the latest kept, with the peaks of
/// creation and destruction debt, model pressure and teleport rebuilds,
/// and the sums of deferred spawns and retires and starvation promotions.
pub fn build_population_pressure<M>(jobs: &VecDeque<JobRecord<M>>) -> (r: PopulationPressure)
    requires
        series_total(jobs@, population_series(jobs@), "/population/spawn_deferred"@) <= u64::MAX,
        series_total(jobs@, population_series(jobs@), "/population/retire_deferred"@) <= u64::MAX,
        series_total(jobs@, population_series(jobs@), "/population/starvation_promotions"@)
            <= u64::MAX,
    ensures
        r.series@.len() == population_series(jobs@).len(),
        forall|q: int|
            0 <= q < r.series@.len() ==> sample_ok(
                jobs@,
                population_series(jobs@)[q],
                population_fields(),
                seq!["/population/teleport_rebuild"@],
                #[trigger] r.series@[q],
            ),
        r.peak_creation_debt == peak(r.series@, 9),
        r.peak_destruction_debt == peak(r.series@, 10),
        r.teleport_rebuilds_total == peak(r.series@, 13),
        r.peak_model_pressure == peak(r.series@, 15),
        r.total_spawn_deferred == series_total(
            jobs@,
            population_series(jobs@),
            "/population/spawn_deferred"@,
        ),
        r.total_retire_deferred == series_total(
            jobs@,
            population_series(jobs@),
            "/population/retire_deferred"@,
        ),
        r.total_starvation_promotions == series_total(
            jobs@,
            population_series(jobs@),
            "/population/starvation_promotions"@,
        ),
{
    let series = pressure_series(jobs, POPULATION_SAMPLE_SCHEMA, "/population");
    let fields = [
        "/population/subjects",
        "/population/managed_subjects",
        "/population/protected_subjects",
        "/population/spawn_requested",
        "/population/spawn_admitted",
        "/population/spawn_deferred",
        "/population/retire_requested",
        "/population/retire_admitted",
        "/population/retire_deferred",
        "/population/creation_debt",
        "/population/destruction_debt",
        "/population/starvation_promotions",
        "/population/region_quota_clips",
        "/population/teleport_rebuilds_total",
        "/population/model_pressure_rows",
        "/population/peak_model_pressure",
    ];
    let flags = ["/population/teleport_rebuild"];
    assert(fields@.map_values(|p: &str| p@) =~= population_fields());
    assert(flags@.map_values(|p: &str| p@) =~= seq!["/population/teleport_rebuild"@]);
    let samples = read_samples(jobs, &series, &fields, &flags);
    let ghost fl = seq!["/population/teleport_rebuild"@];
    assert forall|q: int| 0 <= q < samples@.len() implies 16 == (#[trigger] samples@[q]).values@.len() by {
        assert(sample_ok(jobs@, series@[q], population_fields(), fl, samples@[q]));
    }
    proof {
        lemma_total_is_series_total(jobs@, series@, population_fields(), fl, samples@, 5);
        lemma_total_is_series_total(jobs@, series@, population_fields(), fl, samples@, 8);
        lemma_total_is_series_total(jobs@, series@, population_fields(), fl, samples@, 11);
    }
    let peak_creation_debt = peak_of(&samples, 9);
    let peak_destruction_debt = peak_of(&samples, 10);
    let teleport_rebuilds_total = peak_of(&samples, 13);
    let peak_model_pressure = peak_of(&samples, 15);
    let total_spawn_deferred = total_of(&samples, 5);
    let total_retire_deferred = total_of(&samples, 8);
    let total_starvation_promotions = total_of(&samples, 11);
    PopulationPressure {
        series: samples,
        peak_creation_debt,
        peak_destruction_debt,
        total_spawn_deferred,
        total_retire_deferred,
        total_starvation_promotions,
        peak_model_pressure,
        teleport_rebuilds_total,
    }
}

/// A series is ordered by frame, holds every sample of its schema up to
/// `MAX_SERIES_SAMPLES`, and only samples of its schema; where it is cut,
/// the samples left out are those of the earliest frames.
pub proof fn lemma_series_frame_ordered<M>(jobs: Seq<JobRecord<M>>, schema: Seq<char>, section: Seq<char>)
    ensures
        series_spec(jobs, schema, section).len() == (if sample_keys(jobs, schema, section).len()
            > MAX_SERIES_SAMPLES {
            MAX_SERIES_SAMPLES as nat
        } else {
            sample_keys(jobs, schema, section).len()
        }),
        forall|j: int, i: int|
            0 <= j < sample_keys(jobs, schema, section).len() - series_spec(jobs, schema, section).len()
                && 0 <= i < series_spec(jobs, schema, section).len() ==> (#[trigger] sample_keys(
                jobs,
                schema,
                section,
            ).sort_by(frame_leq())[j]).0 <= (#[trigger] series_spec(jobs, schema, section)[i]).0,
        forall|i: int, j: int|
            0 <= i < j < series_spec(jobs, schema, section).len() ==> (#[trigger] series_spec(
                jobs,
                schema,
                section,
            )[i]).0 <= (#[trigger] series_spec(jobs, schema, section)[j]).0,
        forall|i: int|
            0 <= i < series_spec(jobs, schema, section).len() ==> sample_keys(
                jobs,
                schema,
                section,
            ).contains(#[trigger] series_spec(jobs, schema, section)[i]),
{
    let keys = sample_keys(jobs, schema, section);
    let sorted = keys.sort_by(frame_leq());
    lemma_frame_order_total();
    keys.lemma_sort_by_ensures(frame_leq());
    vstd::seq_lib::to_multiset_len(keys);
    vstd::seq_lib::to_multiset_len(sorted);
    assert(sorted.len() == keys.len());
    let r = series_spec(jobs, schema, section);
    let off = if sorted.len() > MAX_SERIES_SAMPLES {
        sorted.len() - MAX_SERIES_SAMPLES
    } else {
        0
    };
    assert forall|i: int| 0 <= i < r.len() implies r[i] == sorted[i + off] by {}
    assert forall|i: int, j: int| 0 <= i < j < r.len() implies (#[trigger] r[i]).0 <= (
    #[trigger] r[j]).0 by {
        assert(frame_leq()(sorted[i + off], sorted[j + off]));
    }
    assert forall|j: int, i: int|
        0 <= j < keys.len() - r.len() && 0 <= i < r.len() implies (#[trigger] sorted[j]).0 <= (
        #[trigger] r[i]).0 by {
        assert(frame_leq()(sorted[j], sorted[i + off]));
    }
    assert forall|i: int| 0 <= i < r.len() implies keys.contains(#[trigger] r[i]) by {
        assert(sorted.contains(sorted[i + off]));
        assert(sorted.to_multiset().count(r[i]) > 0) by {
            vstd::seq_lib::to_multiset_contains(sorted, r[i]);
        }
        vstd::seq_lib::to_multiset_contains(keys, r[i]);
    }
}

} // verus!
