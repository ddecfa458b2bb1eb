//! Per-worker statistics and the contention-minimising merge: each worker
//! accumulates purely local counts, a latency histogram and per-request
//! samples, and folds them into the global summary once, at the end.

use vstd::prelude::*;
use vstd::multiset::Multiset;

verus! {

/// Latency above this many milliseconds is clamped when recorded; the
/// histogram tracks one millisecond up to one hundred seconds.
pub const MAX_TRACKED_LATENCY_MS: u64 = 100_000;

/// The run's latency histogram, held behind one opaque wrapper because the
/// underlying type cannot be declared to the verifier.  The `inner` field
/// is for the unverified reporting edge, which reads percentiles from it;
/// verified code touches it only through the trusted items below.
#[verifier::external_body]
pub struct LatencyHistogram {
    pub inner: hdrhistogram::Histogram<u64>,
}

/// What a latency histogram holds: the multiset of values recorded into it
/// (each already clamped to the tracked range).
pub uninterp spec fn hist_values(h: LatencyHistogram) -> Multiset<u64>;

/// Whether a histogram was created with this crate's fixed bucket
/// configuration, under which merges are exact.
pub uninterp spec fn hist_standard(h: LatencyHistogram) -> bool;

/// A latency value as the histogram keeps it: clamped to the tracked range.
pub open spec fn clamped_latency(v: u64) -> u64 {
    if v > MAX_TRACKED_LATENCY_MS {
        MAX_TRACKED_LATENCY_MS
    } else {
        v
    }
}

/// Relies on hdrhistogram's `Histogram::new_with_bounds`: a fresh histogram
/// holds no values, and these bounds (1 to 100_000, two significant
/// figures) are documented as valid, so creation cannot fail.
#[verifier::external_body]
fn new_latency_histogram() -> (h: LatencyHistogram)
    ensures
        hist_values(h) == Multiset::<u64>::empty(),
        hist_standard(h),
{
    LatencyHistogram { inner: hdrhistogram::Histogram::<u64>::new_with_bounds(1, 100_000, 2).unwrap() }
}

/// Relies on hdrhistogram's `Histogram::saturating_record`: the value joins
/// the histogram's contents, clamped to the tracked range, and the call
/// cannot fail.  The length bound keeps every per-bucket count below the
/// point where the crate's saturating additions would round down.
#[verifier::external_body]
fn record_latency(h: &mut LatencyHistogram, value: u64)
    requires
        hist_standard(*old(h)),
        hist_values(*old(h)).len() < 0xFFFF_FFFF_FFFF_FFFF,
    ensures
        hist_standard(*final(h)),
        hist_values(*final(h)) == hist_values(*old(h)).insert(clamped_latency(value)),
{
    h.inner.saturating_record(value);
}

/// Relies on hdrhistogram's `Histogram::add`: with the same bucket
/// configuration on both sides the per-bucket counts add exactly — the
/// union of the contents — and the call cannot fail, since no value of the
/// source exceeds what the destination tracks.
#[verifier::external_body]
fn merge_latency(dst: &mut LatencyHistogram, src: &LatencyHistogram)
    requires
        hist_standard(*old(dst)),
        hist_standard(*src),
        hist_values(*old(dst)).len() + hist_values(*src).len() < 0xFFFF_FFFF_FFFF_FFFF,
    ensures
        hist_standard(*final(dst)),
        hist_values(*final(dst)) == hist_values(*old(dst)).add(hist_values(*src)),
{
    dst.inner.add(&src.inner).unwrap();
}

/// The count an entry contributes to a status code's tally.
pub open spec fn code_contrib(e: (u16, u32), c: u16) -> int {
    if e.0 == c {
        e.1 as int
    } else {
        0
    }
}

/// Total tally of status code `c` in a status table.
pub open spec fn status_count(s: Seq<(u16, u32)>, c: u16) -> int
    decreases s.len(),
{
    if s.len() == 0 {
        0
    } else {
        status_count(s.drop_last(), c) + code_contrib(s.last(), c)
    }
}

/// Each status code appears in at most one entry of the table.
pub open spec fn unique_codes(s: Seq<(u16, u32)>) -> bool {
    forall|i: int, j: int| 0 <= i < j < s.len() ==> (#[trigger] s[i]).0 != (#[trigger] s[j]).0
}

pub proof fn lemma_status_count_nonneg(s: Seq<(u16, u32)>, c: u16)
    ensures
        status_count(s, c) >= 0,
    decreases s.len(),
{
    if s.len() > 0 {
        lemma_status_count_nonneg(s.drop_last(), c);
    }
}

pub proof fn lemma_status_count_push(s: Seq<(u16, u32)>, e: (u16, u32), c: u16)
    ensures
        status_count(s.push(e), c) == status_count(s, c) + code_contrib(e, c),
{
    assert(s.push(e).drop_last() =~= s);
    assert(s.push(e).last() == e);
}

pub proof fn lemma_status_count_update(s: Seq<(u16, u32)>, i: int, e: (u16, u32), c: u16)
    requires
        0 <= i < s.len(),
    ensures
        status_count(s.update(i, e), c) == status_count(s, c) - code_contrib(s[i], c)
            + code_contrib(e, c),
    decreases s.len(),
{
    if i == s.len() - 1 {
        assert(s.update(i, e).drop_last() =~= s.drop_last());
        assert(s.update(i, e).last() == e);
    } else {
        assert(s.update(i, e).drop_last() =~= s.drop_last().update(i, e));
        assert(s.update(i, e).last() == s.last());
        lemma_status_count_update(s.drop_last(), i, e, c);
    }
}

pub proof fn lemma_status_count_take_step(s: Seq<(u16, u32)>, i: int, c: u16)
    requires
        0 <= i < s.len(),
    ensures
        status_count(s.take(i + 1), c) == status_count(s.take(i), c) + code_contrib(s[i], c),
{
    assert(s.take(i + 1).drop_last() =~= s.take(i));
    assert(s.take(i + 1).last() == s[i]);
}

/// A code no entry carries tallies to zero.
pub proof fn lemma_status_count_absent(s: Seq<(u16, u32)>, c: u16)
    requires
        forall|j: int| 0 <= j < s.len() ==> (#[trigger] s[j]).0 != c,
    ensures
        status_count(s, c) == 0,
    decreases s.len(),
{
    if s.len() > 0 {
        lemma_status_count_absent(s.drop_last(), c);
    }
}

/// With unique codes, the tally of the code held at `i` is that entry's
/// count alone.
pub proof fn lemma_status_count_at(s: Seq<(u16, u32)>, i: int)
    requires
        unique_codes(s),
        0 <= i < s.len(),
    ensures
        status_count(s, s[i].0) == s[i].1,
    decreases s.len(),
{
    if i == s.len() - 1 {
        assert(forall|j: int|
            0 <= j < s.drop_last().len() ==> (#[trigger] s.drop_last()[j]).0 != s[i].0);
        lemma_status_count_absent(s.drop_last(), s[i].0);
    } else {
        lemma_status_count_at(s.drop_last(), i);
        assert(s.last().0 != s[i].0);
    }
}

/// Adds `n` to the tally of `code`, extending the table if the code is new.
fn bump_status_by(status: &mut Vec<(u16, u32)>, code: u16, n: u32)
    requires
        unique_codes(old(status)@),
        status_count(old(status)@, code) + n <= u32::MAX,
    ensures
        unique_codes(final(status)@),
        status_count(final(status)@, code) == status_count(old(status)@, code) + n,
        forall|c: u16|
            c != code ==> #[trigger] status_count(final(status)@, c) == status_count(
                old(status)@,
                c,
            ),
{
    let mut i: usize = 0;
    while i < status.len()
        invariant
            *status == *old(status),
            unique_codes(status@),
            status_count(status@, code) + n <= u32::MAX,
            i <= status@.len(),
            forall|j: int| 0 <= j < i ==> (#[trigger] status@[j]).0 != code,
        decreases status@.len() - i,
    {
        if status[i].0 == code {
            let cur: u32 = status[i].1;
            proof {
                lemma_status_count_at(status@, i as int);
                lemma_status_count_update(status@, i as int, (code, (cur + n) as u32), code);
            }
            let ghost prev = status@;
            status[i] = (code, cur + n);
            proof {
                assert(forall|c: u16|
                    c != code ==> #[trigger] status_count(status@, c) == status_count(prev, c))
                    by {
                    assert forall|c: u16| c != code implies #[trigger] status_count(status@, c)
                        == status_count(prev, c) by {
                        lemma_status_count_update(prev, i as int, (code, (cur + n) as u32), c);
                    }
                }
            }
            return ;
        }
        i = i + 1;
    }
    proof {
        lemma_status_count_absent(status@, code);
        lemma_status_count_push(status@, (code, n), code);
        assert(forall|c: u16|
            c != code ==> #[trigger] status_count(status@.push((code, n)), c) == status_count(
                status@,
                c,
            )) by {
            assert forall|c: u16| c != code implies #[trigger] status_count(
                status@.push((code, n)),
                c,
            ) == status_count(status@, c) by {
                lemma_status_count_push(status@, (code, n), c);
            }
        }
    }
    status.push((code, n));
}

/// Statistics gathered during the benchmark: status-code tallies, the two
/// error counts, the latency histogram, and one `(target index, latency)`
/// sample per completed request.  Each worker owns one, and the run owns
/// one global summary that the workers' results are folded into.
pub struct BenchResult {
    pub status: Vec<(u16, u32)>,
    pub request_errors: u32,
    pub response_errors: u32,
    pub latency: LatencyHistogram,
    pub request_times: Vec<(usize, u64)>,
}

/// How one dispatched request ended, as the worker classified it.
#[derive(Clone, Copy, PartialEq, Eq, Structural, Debug)]
pub enum Outcome {
    /// The transport produced no response at all; no latency is recorded.
    RequestError,
    /// A status line arrived but the body failed to drain; the partial
    /// duration still counts as real signal.
    ResponseError { status: u16, duration_ms: u64 },
    /// A full response, drained to the end.
    Success { status: u16, duration_ms: u64 },
}

impl BenchResult {
    /// The status table holds each code once, the histogram carries the
    /// crate's fixed bucket configuration, and it holds exactly one value
    /// per recorded sample.
    pub open spec fn wf(self) -> bool {
        &&& unique_codes(self.status@)
        &&& hist_standard(self.latency)
        &&& hist_values(self.latency).len() == self.request_times@.len()
    }

    /// A fresh, empty result: no tallies, no errors, no samples.
    pub fn new() -> (r: BenchResult)
        ensures
            r.wf(),
            r.status@ =~= Seq::<(u16, u32)>::empty(),
            forall|c: u16| status_count(r.status@, c) == 0,
            r.request_errors == 0,
            r.response_errors == 0,
            hist_values(r.latency) =~= Multiset::<u64>::empty(),
            r.request_times@ =~= Seq::<(usize, u64)>::empty(),
    {
        BenchResult {
            status: Vec::new(),
            request_errors: 0,
            response_errors: 0,
            latency: new_latency_histogram(),
            request_times: Vec::new(),
        }
    }

    /// Folds one classified outcome into the local statistics, exactly as
    /// the classification prescribes: a request error only steps its
    /// counter; a response error or success tallies the status code,
    /// records the (clamped) duration and appends the per-request sample,
    /// with a response error also stepping its own counter.
    pub fn record_outcome(&mut self, url_index: usize, outcome: Outcome)
        requires
            old(self).wf(),
            old(self).request_times@.len() < usize::MAX,
            match outcome {
                Outcome::RequestError => old(self).request_errors < u32::MAX,
                Outcome::ResponseError { status, .. } => old(self).response_errors < u32::MAX
                    && status_count(old(self).status@, status) < u32::MAX,
                Outcome::Success { status, .. } => status_count(old(self).status@, status)
                    < u32::MAX,
            },
        ensures
            final(self).wf(),
            match outcome {
                Outcome::RequestError => {
                    &&& final(self).request_errors == old(self).request_errors + 1
                    &&& final(self).response_errors == old(self).response_errors
                    &&& final(self).status@ == old(self).status@
                    &&& hist_values(final(self).latency) == hist_values(old(self).latency)
                    &&& final(self).request_times@ == old(self).request_times@
                },
                Outcome::ResponseError { status, duration_ms } => {
                    &&& final(self).request_errors == old(self).request_errors
                    &&& final(self).response_errors == old(self).response_errors + 1
                    &&& status_count(final(self).status@, status) == status_count(
                        old(self).status@,
                        status,
                    ) + 1
                    &&& forall|c: u16|
                        c != status ==> #[trigger] status_count(final(self).status@, c)
                            == status_count(old(self).status@, c)
                    &&& hist_values(final(self).latency) == hist_values(old(self).latency).insert(
                        clamped_latency(duration_ms),
                    )
                    &&& final(self).request_times@ == old(self).request_times@.push(
                        (url_index, duration_ms),
                    )
                },
                Outcome::Success { status, duration_ms } => {
                    &&& final(self).request_errors == old(self).request_errors
                    &&& final(self).response_errors == old(self).response_errors
                    &&& status_count(final(self).status@, status) == status_count(
                        old(self).status@,
                        status,
                    ) + 1
                    &&& forall|c: u16|
                        c != status ==> #[trigger] status_count(final(self).status@, c)
                            == status_count(old(self).status@, c)
                    &&& hist_values(final(self).latency) == hist_values(old(self).latency).insert(
                        clamped_latency(duration_ms),
                    )
                    &&& final(self).request_times@ == old(self).request_times@.push(
                        (url_index, duration_ms),
                    )
                },
            },
    {
        match outcome {
            Outcome::RequestError => {
                self.request_errors = self.request_errors + 1;
            },
            Outcome::ResponseError { status, duration_ms } => {
                self.response_errors = self.response_errors + 1;
                bump_status_by(&mut self.status, status, 1);
                record_latency(&mut self.latency, duration_ms);
                self.request_times.push((url_index, duration_ms));
            },
            Outcome::Success { status, duration_ms } => {
                bump_status_by(&mut self.status, status, 1);
                record_latency(&mut self.latency, duration_ms);
                self.request_times.push((url_index, duration_ms));
            },
        }
    }

    /// Accumulates this result into the summary: status tallies add
    /// key-wise, the error counts add, the histograms merge losslessly, and
    /// the per-request samples are appended.  One call per worker, under
    /// the run's single mutex.
    pub fn add_to(&self, summary: &mut BenchResult)
        requires
            self.wf(),
            old(summary).wf(),
            forall|c: u16|
                status_count(old(summary).status@, c) + #[trigger] status_count(self.status@, c)
                    <= u32::MAX,
            old(summary).request_errors + self.request_errors <= u32::MAX,
            old(summary).response_errors + self.response_errors <= u32::MAX,
            old(summary).request_times@.len() + self.request_times@.len() < usize::MAX,
        ensures
            final(summary).wf(),
            forall|c: u16|
                #[trigger] status_count(final(summary).status@, c) == status_count(
                    old(summary).status@,
                    c,
                ) + status_count(self.status@, c),
            final(summary).request_errors == old(summary).request_errors + self.request_errors,
            final(summary).response_errors == old(summary).response_errors + self.response_errors,
            hist_values(final(summary).latency) == hist_values(old(summary).latency).add(
                hist_values(self.latency),
            ),
            final(summary).request_times@ == old(summary).request_times@
                + self.request_times@,
    {
        let ghost base = summary.status@;
        let mut i: usize = 0;
        while i < self.status.len()
            invariant
                i <= self.status@.len(),
                unique_codes(self.status@),
                unique_codes(summary.status@),
                forall|c: u16|
                    status_count(base, c) + #[trigger] status_count(self.status@, c) <= u32::MAX,
                forall|c: u16|
                    #[trigger] status_count(summary.status@, c) == status_count(base, c)
                        + status_count(self.status@.take(i as int), c),
                summary.request_errors == old(summary).request_errors,
                summary.response_errors == old(summary).response_errors,
                summary.latency == old(summary).latency,
                summary.request_times@ == old(summary).request_times@,
            decreases self.status@.len() - i,
        {
            let (code, n) = self.status[i];
            proof {
                lemma_status_count_at(self.status@, i as int);
                lemma_status_count_take_le(self.status@, i + 1, code);
                lemma_status_count_nonneg(self.status@.take(i as int), code);
                lemma_status_count_nonneg(base, code);
                assert forall|c: u16| #[trigger] status_count(
                    self.status@.take(i + 1),
                    c,
                ) == status_count(self.status@.take(i as int), c) + code_contrib(
                    self.status@[i as int],
                    c,
                ) by {
                    lemma_status_count_take_step(self.status@, i as int, c);
                }
            }
            bump_status_by(&mut summary.status, code, n);
            i = i + 1;
        }
        proof {
            assert(self.status@.take(self.status@.len() as int) =~= self.status@);
        }
        summary.request_errors = summary.request_errors + self.request_errors;
        summary.response_errors = summary.response_errors + self.response_errors;
        merge_latency(&mut summary.latency, &self.latency);
        let ghost times_base = summary.request_times@;
        let mut j: usize = 0;
        while j < self.request_times.len()
            invariant
                j <= self.request_times@.len(),
                times_base == old(summary).request_times@,
                times_base.len() + self.request_times@.len() < usize::MAX,
                summary.request_times@ == times_base + self.request_times@.take(j as int),
                unique_codes(summary.status@),
                forall|c: u16|
                    #[trigger] status_count(summary.status@, c) == status_count(
                        old(summary).status@,
                        c,
                    ) + status_count(self.status@, c),
                summary.request_errors == old(summary).request_errors + self.request_errors,
                summary.response_errors == old(summary).response_errors + self.response_errors,
                hist_standard(summary.latency),
                hist_values(summary.latency) == hist_values(old(summary).latency).add(
                    hist_values(self.latency),
                ),
                hist_values(summary.latency).len() == old(summary).request_times@.len()
                    + self.request_times@.len(),
            decreases self.request_times@.len() - j,
        {
            let sample = self.request_times[j];
            proof {
                assert(times_base + self.request_times@.take(j + 1) =~= (times_base
                    + self.request_times@.take(j as int)).push(sample));
            }
            summary.request_times.push(sample);
            j = j + 1;
        }
        proof {
            assert(self.request_times@.take(self.request_times@.len() as int)
                =~= self.request_times@);
        }
    }
}

/// A tally of `c` in a prefix never exceeds the tally in the whole table.
pub proof fn lemma_status_count_take_le(s: Seq<(u16, u32)>, j: int, c: u16)
    requires
        0 <= j <= s.len(),
    ensures
        status_count(s.take(j), c) <= status_count(s, c),
    decreases s.len() - j,
{
    if j == s.len() {
        assert(s.take(j) =~= s);
    } else {
        lemma_status_count_take_step(s, j, c);
        lemma_status_count_take_le(s, j + 1, c);
        lemma_status_count_nonneg(s.take(j), c);
        assert(code_contrib(s[j], c) >= 0);
    }
}

/// Status-code tally of `c` accumulated over a whole set of results.
pub open spec fn combined_status(rs: Seq<BenchResult>, c: u16) -> int
    decreases rs.len(),
{
    if rs.len() == 0 {
        0
    } else {
        combined_status(rs.drop_last(), c) + status_count(rs.last().status@, c)
    }
}

/// Request-error count accumulated over a whole set of results.
pub open spec fn combined_request_errors(rs: Seq<BenchResult>) -> int
    decreases rs.len(),
{
    if rs.len() == 0 {
        0
    } else {
        combined_request_errors(rs.drop_last()) + rs.last().request_errors
    }
}

/// Response-error count accumulated over a whole set of results.
pub open spec fn combined_response_errors(rs: Seq<BenchResult>) -> int
    decreases rs.len(),
{
    if rs.len() == 0 {
        0
    } else {
        combined_response_errors(rs.drop_last()) + rs.last().response_errors
    }
}

/// Latency values accumulated over a whole set of results.
pub open spec fn combined_latency(rs: Seq<BenchResult>) -> Multiset<u64>
    decreases rs.len(),
{
    if rs.len() == 0 {
        Multiset::<u64>::empty()
    } else {
        combined_latency(rs.drop_last()).add(hist_values(rs.last().latency))
    }
}

/// Per-request samples accumulated over a whole set of results, in order.
pub open spec fn combined_times(rs: Seq<BenchResult>) -> Seq<(usize, u64)>
    decreases rs.len(),
{
    if rs.len() == 0 {
        Seq::<(usize, u64)>::empty()
    } else {
        combined_times(rs.drop_last()) + rs.last().request_times@
    }
}

/// One more result extends each accumulated quantity by that result's own.
pub proof fn lemma_combined_take_step(rs: Seq<BenchResult>, i: int, c: u16)
    requires
        0 <= i < rs.len(),
    ensures
        combined_status(rs.take(i + 1), c) == combined_status(rs.take(i), c) + status_count(
            rs[i].status@,
            c,
        ),
        combined_request_errors(rs.take(i + 1)) == combined_request_errors(rs.take(i))
            + rs[i].request_errors,
        combined_response_errors(rs.take(i + 1)) == combined_response_errors(rs.take(i))
            + rs[i].response_errors,
        combined_latency(rs.take(i + 1)) == combined_latency(rs.take(i)).add(
            hist_values(rs[i].latency),
        ),
        combined_times(rs.take(i + 1)) == combined_times(rs.take(i)) + rs[i].request_times@,
{
    assert(rs.take(i + 1).drop_last() =~= rs.take(i));
    assert(rs.take(i + 1).last() == rs[i]);
}

pub proof fn lemma_combined_status_nonneg(rs: Seq<BenchResult>, c: u16)
    ensures
        combined_status(rs, c) >= 0,
        combined_request_errors(rs) >= 0,
        combined_response_errors(rs) >= 0,
    decreases rs.len(),
{
    if rs.len() > 0 {
        lemma_combined_status_nonneg(rs.drop_last(), c);
        lemma_status_count_nonneg(rs.last().status@, c);
    }
}

/// An accumulated quantity over a prefix never exceeds the whole.
pub proof fn lemma_combined_take_le(rs: Seq<BenchResult>, j: int, c: u16)
    requires
        0 <= j <= rs.len(),
    ensures
        combined_status(rs.take(j), c) <= combined_status(rs, c),
        combined_request_errors(rs.take(j)) <= combined_request_errors(rs),
        combined_response_errors(rs.take(j)) <= combined_response_errors(rs),
        combined_times(rs.take(j)).len() <= combined_times(rs).len(),
    decreases rs.len() - j,
{
    if j == rs.len() {
        assert(rs.take(j) =~= rs);
    } else {
        lemma_combined_take_step(rs, j, c);
        lemma_combined_take_le(rs, j + 1, c);
        lemma_status_count_nonneg(rs[j].status@, c);
    }
}

/// Folds every worker's local result into one fresh summary, in list
/// order: status tallies, error counts and latency values all add up
/// across the workers, and the samples concatenate.
pub fn merge_results(results: &Vec<BenchResult>) -> (merged: BenchResult)
    requires
        forall|i: int| 0 <= i < results@.len() ==> (#[trigger] results@[i]).wf(),
        forall|c: u16| #[trigger] combined_status(results@, c) <= u32::MAX,
        combined_request_errors(results@) <= u32::MAX,
        combined_response_errors(results@) <= u32::MAX,
        combined_times(results@).len() < usize::MAX,
    ensures
        merged.wf(),
        forall|c: u16| #[trigger] status_count(merged.status@, c) == combined_status(results@, c),
        merged.request_errors == combined_request_errors(results@),
        merged.response_errors == combined_response_errors(results@),
        hist_values(merged.latency) == combined_latency(results@),
        merged.request_times@ == combined_times(results@),
{
    let mut merged = BenchResult::new();
    let mut i: usize = 0;
    while i < results.len()
        invariant
            i <= results@.len(),
            forall|k: int| 0 <= k < results@.len() ==> (#[trigger] results@[k]).wf(),
            forall|c: u16| #[trigger] combined_status(results@, c) <= u32::MAX,
            combined_request_errors(results@) <= u32::MAX,
            combined_response_errors(results@) <= u32::MAX,
            combined_times(results@).len() < usize::MAX,
            merged.wf(),
            forall|c: u16|
                #[trigger] status_count(merged.status@, c) == combined_status(
                    results@.take(i as int),
                    c,
                ),
            merged.request_errors == combined_request_errors(results@.take(i as int)),
            merged.response_errors == combined_response_errors(results@.take(i as int)),
            hist_values(merged.latency) == combined_latency(results@.take(i as int)),
            merged.request_times@ == combined_times(results@.take(i as int)),
        decreases results@.len() - i,
    {
        proof {
            assert forall|c: u16| #[trigger] combined_status(
                results@.take(i + 1),
                c,
            ) == combined_status(results@.take(i as int), c) + status_count(
                results@[i as int].status@,
                c,
            ) by {
                lemma_combined_take_step(results@, i as int, c);
            }
            assert forall|c: u16| status_count(merged.status@, c) + #[trigger]
            status_count(results@[i as int].status@, c) <= u32::MAX by {
                lemma_combined_take_step(results@, i as int, c);
                lemma_combined_take_le(results@, i + 1, c);
                lemma_combined_status_nonneg(results@.take(i + 1), c);
                lemma_combined_status_nonneg(results@.take(i as int), c);
            }
            lemma_combined_take_step(results@, i as int, 0);
            lemma_combined_take_le(results@, i + 1, 0);
            lemma_combined_status_nonneg(results@.take(i + 1), 0);
            lemma_combined_status_nonneg(results@.take(i as int), 0);
        }
        results[i].add_to(&mut merged);
        i = i + 1;
    }
    proof {
        assert(results@.take(results@.len() as int) =~= results@);
    }
    merged
}

/// Removing the result at `j` takes away exactly its own contribution.
pub proof fn lemma_combined_remove(rs: Seq<BenchResult>, j: int, c: u16)
    requires
        0 <= j < rs.len(),
    ensures
        combined_status(rs, c) == combined_status(rs.remove(j), c) + status_count(
            rs[j].status@,
            c,
        ),
        combined_request_errors(rs) == combined_request_errors(rs.remove(j))
            + rs[j].request_errors,
        combined_response_errors(rs) == combined_response_errors(rs.remove(j))
            + rs[j].response_errors,
        combined_latency(rs) == combined_latency(rs.remove(j)).add(hist_values(rs[j].latency)),
    decreases rs.len(),
{
    if j == rs.len() - 1 {
        assert(rs.remove(j) =~= rs.drop_last());
    } else {
        assert(rs.remove(j).drop_last() =~= rs.drop_last().remove(j));
        assert(rs.remove(j).last() == rs.last());
        lemma_combined_remove(rs.drop_last(), j, c);
        assert(combined_latency(rs.drop_last().remove(j)).add(hist_values(rs[j].latency)).add(
            hist_values(rs.last().latency),
        ) =~= combined_latency(rs.drop_last().remove(j)).add(hist_values(rs.last().latency)).add(
            hist_values(rs[j].latency),
        ));
    }
}

/// Accumulating the same set of worker results in any order yields the same
/// status tally for `c`, the same error counts, and the same latency
/// values; only the order of the concatenated per-request samples may
/// differ between the two runs.
pub proof fn lemma_merge_any_order_for(rs1: Seq<BenchResult>, rs2: Seq<BenchResult>, c: u16)
    requires
        rs1.to_multiset() == rs2.to_multiset(),
    ensures
        combined_status(rs1, c) == combined_status(rs2, c),
        combined_request_errors(rs1) == combined_request_errors(rs2),
        combined_response_errors(rs1) == combined_response_errors(rs2),
        combined_latency(rs1) == combined_latency(rs2),
    decreases rs1.len(),
{
    rs1.to_multiset_ensures();
    rs2.to_multiset_ensures();
    if rs1.len() == 0 {
        assert(rs2.to_multiset().len() == 0);
        assert(rs2.len() == 0);
    } else {
        let x = rs1.last();
        let prefix = rs1.drop_last();
        prefix.to_multiset_ensures();
        assert(prefix.push(x) =~= rs1);
        assert(rs1.to_multiset() == prefix.to_multiset().insert(x));
        assert(rs2.to_multiset().count(x) > 0);
        assert(rs2.contains(x));
        let j = choose|j: int| 0 <= j < rs2.len() && rs2[j] == x;
        assert(rs2.remove(j).to_multiset() =~= rs2.to_multiset().remove(x));
        assert(prefix.to_multiset().insert(x).remove(x) =~= prefix.to_multiset());
        lemma_merge_any_order_for(prefix, rs2.remove(j), c);
        lemma_combined_remove(rs2, j, c);
        assert(combined_status(rs1, c) == combined_status(prefix, c) + status_count(x.status@, c));
    }
}

/// The statement above, for every status code at once: merge order never
/// affects the final tallies, error counts, or histogram contents.
pub proof fn lemma_merge_any_order(rs1: Seq<BenchResult>, rs2: Seq<BenchResult>)
    requires
        rs1.to_multiset() == rs2.to_multiset(),
    ensures
        forall|c: u16| #[trigger] combined_status(rs1, c) == combined_status(rs2, c),
        combined_request_errors(rs1) == combined_request_errors(rs2),
        combined_response_errors(rs1) == combined_response_errors(rs2),
        combined_latency(rs1) == combined_latency(rs2),
{
    assert forall|c: u16| #[trigger] combined_status(rs1, c) == combined_status(rs2, c) by {
        lemma_merge_any_order_for(rs1, rs2, c);
    }
    lemma_merge_any_order_for(rs1, rs2, 0);
}

} // verus!
