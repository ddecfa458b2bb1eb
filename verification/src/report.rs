//! Report computations over the final aggregate: the per-target summary of
//! the slow-requests report, and the sorted status-code listing.  Rendering
//! and the percentile cutoff itself belong to the unverified edge; these
//! functions take plain values and return plain values.

use vstd::prelude::*;

use crate::workers::BenchResult;

verus! {

/// One row of the slow-requests report: summary statistics of every sample
/// observed for one target.
#[derive(Clone, Copy, PartialEq, Eq, Structural, Debug)]
pub struct ReportLine {
    pub url_index: usize,
    pub count: usize,
    pub min: u64,
    pub max: u64,
    pub avg: u64,
}

/// How many samples of `s` belong to target `t`.
pub open spec fn tgt_count(s: Seq<(usize, u64)>, t: int) -> int
    decreases s.len(),
{
    if s.len() == 0 {
        0
    } else {
        tgt_count(s.drop_last(), t) + if s.last().0 == t {
            1int
        } else {
            0int
        }
    }
}

/// Sum of the latencies of target `t`'s samples.
pub open spec fn tgt_sum(s: Seq<(usize, u64)>, t: int) -> int
    decreases s.len(),
{
    if s.len() == 0 {
        0
    } else {
        tgt_sum(s.drop_last(), t) + if s.last().0 == t {
            s.last().1 as int
        } else {
            0int
        }
    }
}

/// Largest latency among target `t`'s samples; zero when there are none.
pub open spec fn tgt_max(s: Seq<(usize, u64)>, t: int) -> int
    decreases s.len(),
{
    if s.len() == 0 {
        0
    } else {
        let rest = tgt_max(s.drop_last(), t);
        if s.last().0 == t && s.last().1 > rest {
            s.last().1 as int
        } else {
            rest
        }
    }
}

/// Smallest latency among target `t`'s samples; `u64::MAX` when there are
/// none, matching the seed of the running fold.
pub open spec fn tgt_min(s: Seq<(usize, u64)>, t: int) -> int
    decreases s.len(),
{
    if s.len() == 0 {
        u64::MAX as int
    } else {
        let rest = tgt_min(s.drop_last(), t);
        if s.last().0 == t && s.last().1 < rest {
            s.last().1 as int
        } else {
            rest
        }
    }
}

/// A report line states exactly the statistics of its target's samples.
pub open spec fn line_valid(s: Seq<(usize, u64)>, l: ReportLine) -> bool {
    &&& tgt_count(s, l.url_index as int) == l.count
    &&& l.count > 0
    &&& tgt_min(s, l.url_index as int) == l.min
    &&& tgt_max(s, l.url_index as int) == l.max
    &&& l.avg == tgt_sum(s, l.url_index as int) / tgt_count(s, l.url_index as int)
}

/// A target belongs in the slow report when it has samples and its worst
/// latency reaches the cutoff.
pub open spec fn qualifies(s: Seq<(usize, u64)>, t: int, cutoff: u64) -> bool {
    tgt_count(s, t) > 0 && tgt_max(s, t) >= cutoff
}

/// One more sample adjusts exactly its own target's running statistics.
pub proof fn lemma_tgt_take_step(s: Seq<(usize, u64)>, i: int, t: int)
    requires
        0 <= i < s.len(),
    ensures
        tgt_count(s.take(i + 1), t) == tgt_count(s.take(i), t) + if s[i].0 == t {
            1int
        } else {
            0int
        },
        tgt_sum(s.take(i + 1), t) == tgt_sum(s.take(i), t) + if s[i].0 == t {
            s[i].1 as int
        } else {
            0int
        },
        tgt_max(s.take(i + 1), t) == (if s[i].0 == t && s[i].1 > tgt_max(s.take(i), t) {
            s[i].1 as int
        } else {
            tgt_max(s.take(i), t)
        }),
        tgt_min(s.take(i + 1), t) == (if s[i].0 == t && s[i].1 < tgt_min(s.take(i), t) {
            s[i].1 as int
        } else {
            tgt_min(s.take(i), t)
        }),
{
    assert(s.take(i + 1).drop_last() =~= s.take(i));
    assert(s.take(i + 1).last() == s[i]);
}

pub proof fn lemma_tgt_bounds(s: Seq<(usize, u64)>, t: int)
    ensures
        0 <= tgt_count(s, t) <= s.len(),
        0 <= tgt_sum(s, t),
        0 <= tgt_max(s, t) <= u64::MAX,
        0 <= tgt_min(s, t) <= u64::MAX,
    decreases s.len(),
{
    if s.len() > 0 {
        lemma_tgt_bounds(s.drop_last(), t);
    }
}

/// A prefix's per-target sum never exceeds the whole sequence's.
pub proof fn lemma_tgt_sum_take_le(s: Seq<(usize, u64)>, j: int, t: int)
    requires
        0 <= j <= s.len(),
    ensures
        tgt_sum(s.take(j), t) <= tgt_sum(s, t),
    decreases s.len() - j,
{
    if j == s.len() {
        assert(s.take(j) =~= s);
    } else {
        lemma_tgt_take_step(s, j, t);
        lemma_tgt_sum_take_le(s, j + 1, t);
    }
}

/// Builds the slow-requests report from the per-request samples: one line
/// for each target whose worst latency reaches `cutoff` (the caller reads
/// the cutoff off the latency histogram at the chosen percentile), with
/// that target's exact sample count, minimum, maximum and truncated mean,
/// sorted by worst latency in descending order.
pub fn slow_report(times: &Vec<(usize, u64)>, n_targets: usize, cutoff: u64) -> (lines: Vec<
    ReportLine,
>)
    requires
        forall|i: int| 0 <= i < times@.len() ==> (#[trigger] times@[i]).0 < n_targets,
        forall|t: int| #[trigger] tgt_sum(times@, t) <= u64::MAX,
    ensures
        forall|i: int|
            0 <= i < lines@.len() ==> {
                &&& line_valid(times@, #[trigger] lines@[i])
                &&& lines@[i].url_index < n_targets
                &&& qualifies(times@, lines@[i].url_index as int, cutoff)
            },
        forall|t: int|
            0 <= t < n_targets && #[trigger] qualifies(times@, t, cutoff) ==> exists|i: int|
                0 <= i < lines@.len() && (#[trigger] lines@[i]).url_index == t,
        forall|i: int, j: int|
            0 <= i < j < lines@.len() ==> (#[trigger] lines@[i]).url_index != (
            #[trigger] lines@[j]).url_index,
        forall|i: int, j: int|
            0 <= i < j < lines@.len() ==> (#[trigger] lines@[i]).max >= (#[trigger] lines@[j]).max,
{
    // Fold every sample into its target's running statistics.
    let mut aggs: Vec<(usize, u64, u64, u64)> = Vec::new();
    while aggs.len() < n_targets
        invariant
            aggs@.len() <= n_targets,
            forall|t: int|
                0 <= t < aggs@.len() ==> #[trigger] aggs@[t] == (0usize, u64::MAX, 0u64, 0u64),
        decreases n_targets - aggs@.len(),
    {
        aggs.push((0, u64::MAX, 0, 0));
    }
    let mut i: usize = 0;
    while i < times.len()
        invariant
            i <= times@.len(),
            aggs@.len() == n_targets,
            forall|i2: int| 0 <= i2 < times@.len() ==> (#[trigger] times@[i2]).0 < n_targets,
            forall|t: int| #[trigger] tgt_sum(times@, t) <= u64::MAX,
            forall|t: int|
                0 <= t < n_targets ==> {
                    &&& (#[trigger] aggs@[t]).0 == tgt_count(times@.take(i as int), t)
                    &&& aggs@[t].1 == tgt_min(times@.take(i as int), t)
                    &&& aggs@[t].2 == tgt_max(times@.take(i as int), t)
                    &&& aggs@[t].3 == tgt_sum(times@.take(i as int), t)
                },
        decreases times@.len() - i,
    {
        let (idx, d) = times[i];
        let (c0, mn, mx, sm) = aggs[idx];
        proof {
            lemma_tgt_bounds(times@.take(i as int), idx as int);
            lemma_tgt_take_step(times@, i as int, idx as int);
            lemma_tgt_sum_take_le(times@, i + 1, idx as int);
        }
        let nmn = if d < mn {
            d
        } else {
            mn
        };
        let nmx = if d > mx {
            d
        } else {
            mx
        };
        aggs[idx] = (c0 + 1, nmn, nmx, sm + d);
        proof {
            assert forall|t: int| 0 <= t < n_targets && t != idx implies {
                &&& (#[trigger] aggs@[t]).0 == tgt_count(times@.take(i + 1), t)
                &&& aggs@[t].1 == tgt_min(times@.take(i + 1), t)
                &&& aggs@[t].2 == tgt_max(times@.take(i + 1), t)
                &&& aggs@[t].3 == tgt_sum(times@.take(i + 1), t)
            } by {
                lemma_tgt_take_step(times@, i as int, t);
            }
        }
        i = i + 1;
    }
    proof {
        assert(times@.take(times@.len() as int) =~= times@);
    }
    // Keep only the targets that qualify, in target order.
    let mut collected: Vec<ReportLine> = Vec::new();
    let mut t: usize = 0;
    while t < n_targets
        invariant
            t <= n_targets,
            aggs@.len() == n_targets,
            forall|u: int|
                0 <= u < n_targets ==> {
                    &&& (#[trigger] aggs@[u]).0 == tgt_count(times@, u)
                    &&& aggs@[u].1 == tgt_min(times@, u)
                    &&& aggs@[u].2 == tgt_max(times@, u)
                    &&& aggs@[u].3 == tgt_sum(times@, u)
                },
            forall|i2: int|
                0 <= i2 < collected@.len() ==> {
                    &&& line_valid(times@, #[trigger] collected@[i2])
                    &&& collected@[i2].url_index < t
                    &&& qualifies(times@, collected@[i2].url_index as int, cutoff)
                },
            forall|u: int|
                0 <= u < t && #[trigger] qualifies(times@, u, cutoff) ==> exists|i2: int|
                    0 <= i2 < collected@.len() && (#[trigger] collected@[i2]).url_index == u,
            forall|i2: int, j2: int|
                0 <= i2 < j2 < collected@.len() ==> (#[trigger] collected@[i2]).url_index < (
                #[trigger] collected@[j2]).url_index,
        decreases n_targets - t,
    {
        let (c0, mn, mx, sm) = aggs[t];
        if c0 > 0 && mx >= cutoff {
            proof {
                lemma_tgt_bounds(times@, t as int);
            }
            let line = ReportLine {
                url_index: t,
                count: c0,
                min: mn,
                max: mx,
                avg: sm / (c0 as u64),
            };
            let ghost pre = collected@;
            collected.push(line);
            proof {
                assert forall|u: int|
                    0 <= u < t + 1 && #[trigger] qualifies(times@, u, cutoff) implies exists|
                    i2: int,
                |
                    0 <= i2 < collected@.len() && (#[trigger] collected@[i2]).url_index == u by {
                    if u == t {
                        assert(collected@[pre.len() as int].url_index == u);
                    } else {
                        let w = choose|w: int|
                            0 <= w < pre.len() && (#[trigger] pre[w]).url_index == u;
                        assert(collected@[w].url_index == u);
                    }
                }
            }
        } else {
            proof {
                assert(!qualifies(times@, t as int, cutoff));
            }
        }
        t = t + 1;
    }
    // Order the kept targets by worst latency, descending.
    let ghost before = collected@;
    let sorted = sort_by_max_desc(collected);
    proof {
        let s = sorted@;
        before.to_multiset_ensures();
        s.to_multiset_ensures();
        assert forall|i: int| 0 <= i < s.len() implies {
            &&& line_valid(times@, #[trigger] s[i])
            &&& s[i].url_index < n_targets
            &&& qualifies(times@, s[i].url_index as int, cutoff)
        } by {
            assert(s.contains(s[i]));
            assert(before.to_multiset().count(s[i]) == s.to_multiset().count(s[i]));
            assert(before.contains(s[i]));
            let j = choose|j: int| 0 <= j < before.len() && before[j] == s[i];
        }
        assert forall|t2: int|
            0 <= t2 < n_targets && #[trigger] qualifies(times@, t2, cutoff) implies exists|i: int|
            0 <= i < s.len() && (#[trigger] s[i]).url_index == t2 by {
            let j = choose|j: int| 0 <= j < before.len() && (#[trigger] before[j]).url_index == t2;
            assert(before.contains(before[j]));
            assert(s.to_multiset().count(before[j]) == before.to_multiset().count(before[j]));
            assert(s.contains(before[j]));
            let k = choose|k: int| 0 <= k < s.len() && s[k] == before[j];
            assert(0 <= k < s.len() && s[k].url_index == t2);
        }
        assert(before.no_duplicates()) by {
            assert forall|i: int, j: int|
                0 <= i < before.len() && 0 <= j < before.len() && i != j implies before[i]
                != before[j] by {
                if i < j {
                    assert(before[i].url_index < before[j].url_index);
                } else {
                    assert(before[j].url_index < before[i].url_index);
                }
            }
        }
        before.lemma_multiset_has_no_duplicates();
        s.lemma_multiset_has_no_duplicates_conv();
        assert forall|i: int, j: int| 0 <= i < j < s.len() implies (#[trigger] s[i]).url_index != (
        #[trigger] s[j]).url_index by {
            assert(s[i] != s[j]);
            assert(s.contains(s[i]) && s.contains(s[j]));
            assert(before.to_multiset().count(s[i]) == s.to_multiset().count(s[i]));
            assert(before.to_multiset().count(s[j]) == s.to_multiset().count(s[j]));
            assert(before.contains(s[i]) && before.contains(s[j]));
            let j1 = choose|k: int| 0 <= k < before.len() && before[k] == s[i];
            let j2 = choose|k: int| 0 <= k < before.len() && before[k] == s[j];
            assert(j1 != j2);
            if j1 < j2 {
                assert(before[j1].url_index < before[j2].url_index);
            } else {
                assert(before[j2].url_index < before[j1].url_index);
            }
        }
    }
    sorted
}

/// Selection sort on the report lines, by `max` in descending order; the
/// result holds exactly the lines given.
fn sort_by_max_desc(lines: Vec<ReportLine>) -> (r: Vec<ReportLine>)
    ensures
        r@.to_multiset() == lines@.to_multiset(),
        forall|i: int, j: int| 0 <= i < j < r@.len() ==> (#[trigger] r@[i]).max >= (
        #[trigger] r@[j]).max,
{
    let ghost orig = lines@;
    let mut work = lines;
    let mut out: Vec<ReportLine> = Vec::new();
    proof {
        orig.to_multiset_ensures();
        out@.to_multiset_ensures();
        assert(out@.to_multiset().add(work@.to_multiset()) =~= orig.to_multiset());
    }
    while work.len() > 0
        invariant
            out@.to_multiset().add(work@.to_multiset()) == orig.to_multiset(),
            forall|i: int, j: int| 0 <= i < j < out@.len() ==> (#[trigger] out@[i]).max >= (
            #[trigger] out@[j]).max,
            out@.len() > 0 ==> forall|k: int|
                0 <= k < work@.len() ==> (#[trigger] work@[k]).max <= out@.last().max,
        decreases work@.len(),
    {
        let mut m: usize = 0;
        let mut b: usize = 1;
        while b < work.len()
            invariant
                0 < work@.len(),
                m < b <= work@.len() || (m == 0 && b <= work@.len()),
                m < work@.len(),
                forall|k: int| 0 <= k < b ==> (#[trigger] work@[k]).max <= work@[m as int].max,
            decreases work@.len() - b,
        {
            if work[b].max > work[m].max {
                m = b;
            }
            b = b + 1;
        }
        let ghost wpre = work@;
        let ghost opre = out@;
        let picked = work.remove(m);
        proof {
            wpre.to_multiset_ensures();
            opre.to_multiset_ensures();
            assert(wpre.contains(picked));
            assert(work@.to_multiset() =~= wpre.to_multiset().remove(picked));
            assert(opre.push(picked).to_multiset() =~= opre.to_multiset().insert(picked));
            assert(opre.to_multiset().insert(picked).add(wpre.to_multiset().remove(picked))
                =~= opre.to_multiset().add(wpre.to_multiset()));
            assert forall|k: int| 0 <= k < work@.len() implies (#[trigger] work@[k]).max
                <= picked.max by {
                if k < m {
                    assert(work@[k] == wpre[k]);
                } else {
                    assert(work@[k] == wpre[k + 1]);
                }
            }
        }
        out.push(picked);
    }
    proof {
        work@.to_multiset_ensures();
        assert(work@.to_multiset().len() == 0);
        assert(out@.to_multiset().add(work@.to_multiset()) =~= out@.to_multiset());
    }
    out
}

/// The status codes the run observed, in ascending order: exactly the
/// codes present in the aggregate's status table, one listing per entry.
pub fn status_codes_sorted(result: &BenchResult) -> (codes: Vec<u16>)
    ensures
        codes@.len() == result.status@.len(),
        forall|c: u16|
            codes@.contains(c) <==> exists|j: int|
                0 <= j < result.status@.len() && (#[trigger] result.status@[j]).0 == c,
        forall|i: int, j: int| 0 <= i < j < codes@.len() ==> codes@[i] <= codes@[j],
{
    let mut plain: Vec<u16> = Vec::new();
    let mut i: usize = 0;
    while i < result.status.len()
        invariant
            i <= result.status@.len(),
            plain@.len() == i,
            forall|j: int| 0 <= j < i ==> plain@[j] == (#[trigger] result.status@[j]).0,
        decreases result.status@.len() - i,
    {
        let (code, _count) = result.status[i];
        plain.push(code);
        i = i + 1;
    }
    let ghost before = plain@;
    let codes = sort_codes_ascending(plain);
    proof {
        before.to_multiset_ensures();
        codes@.to_multiset_ensures();
        assert forall|c: u16| codes@.contains(c) implies exists|j: int|
            0 <= j < result.status@.len() && (#[trigger] result.status@[j]).0 == c by {
            assert(before.to_multiset().count(c) == codes@.to_multiset().count(c));
            assert(before.contains(c));
            let w = choose|w: int| 0 <= w < before.len() && before[w] == c;
            assert(result.status@[w].0 == c);
        }
        assert forall|c: u16|
            exists|j: int|
                0 <= j < result.status@.len() && (#[trigger] result.status@[j]).0
                    == c implies codes@.contains(c) by {
            let j = choose|j: int|
                0 <= j < result.status@.len() && (#[trigger] result.status@[j]).0 == c;
            assert(before[j] == c);
            assert(before.contains(c));
            assert(codes@.to_multiset().count(c) == before.to_multiset().count(c));
        }
    }
    codes
}

/// Selection sort on bare status codes, ascending; the result holds
/// exactly the codes given.
fn sort_codes_ascending(codes: Vec<u16>) -> (r: Vec<u16>)
    ensures
        r@.to_multiset() == codes@.to_multiset(),
        r@.len() == codes@.len(),
        forall|i: int, j: int| 0 <= i < j < r@.len() ==> r@[i] <= r@[j],
{
    let ghost orig = codes@;
    let mut work = codes;
    let mut out: Vec<u16> = Vec::new();
    proof {
        orig.to_multiset_ensures();
        out@.to_multiset_ensures();
        assert(out@.to_multiset().add(work@.to_multiset()) =~= orig.to_multiset());
    }
    while work.len() > 0
        invariant
            out@.to_multiset().add(work@.to_multiset()) == orig.to_multiset(),
            out@.len() + work@.len() == orig.len(),
            forall|i: int, j: int| 0 <= i < j < out@.len() ==> out@[i] <= out@[j],
            out@.len() > 0 ==> forall|k: int| 0 <= k < work@.len() ==> out@.last() <= #[trigger] work@[k],
        decreases work@.len(),
    {
        let mut m: usize = 0;
        let mut b: usize = 1;
        while b < work.len()
            invariant
                0 < work@.len(),
                m < work@.len(),
                b <= work@.len(),
                forall|k: int| 0 <= k < b ==> work@[m as int] <= #[trigger] work@[k],
            decreases work@.len() - b,
        {
            if work[b] < work[m] {
                m = b;
            }
            b = b + 1;
        }
        let ghost wpre = work@;
        let ghost opre = out@;
        let picked = work.remove(m);
        proof {
            wpre.to_multiset_ensures();
            opre.to_multiset_ensures();
            assert(wpre.contains(picked));
            assert(work@.to_multiset() =~= wpre.to_multiset().remove(picked));
            assert(opre.push(picked).to_multiset() =~= opre.to_multiset().insert(picked));
            assert(opre.to_multiset().insert(picked).add(wpre.to_multiset().remove(picked))
                =~= opre.to_multiset().add(wpre.to_multiset()));
            assert forall|k: int| 0 <= k < work@.len() implies picked <= #[trigger] work@[k] by {
                if k < m {
                    assert(work@[k] == wpre[k]);
                } else {
                    assert(work@[k] == wpre[k + 1]);
                }
            }
        }
        out.push(picked);
    }
    proof {
        work@.to_multiset_ensures();
        assert(work@.to_multiset().len() == 0);
        assert(out@.to_multiset().add(work@.to_multiset()) =~= out@.to_multiset());
    }
    out
}

} // verus!
