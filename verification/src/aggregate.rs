use vstd::prelude::*;
use crate::analyze::{Analysis, Finding, FindingV, findings_view, Severity};

verus! {

/// Index of the first tally entry keyed `k`, or -1.
pub open spec fn find_tally(ts: Seq<(Seq<char>, int)>, k: Seq<char>) -> int
    decreases ts.len(),
{
    if ts.len() == 0 {
        -1
    } else if ts[0].0 == k {
        0
    } else {
        let r = find_tally(ts.drop_first(), k);
        if r == -1 {
            -1
        } else {
            r + 1
        }
    }
}

pub proof fn lemma_find_tally_props(ts: Seq<(Seq<char>, int)>, k: Seq<char>)
    ensures
        find_tally(ts, k) == -1 ==> forall|j: int| 0 <= j < ts.len() ==> (#[trigger] ts[j]).0 != k,
        find_tally(ts, k) != -1 ==> {
            let i = find_tally(ts, k);
            &&& 0 <= i < ts.len()
            &&& ts[i].0 == k
            &&& forall|j: int| 0 <= j < i ==> (#[trigger] ts[j]).0 != k
        },
    decreases ts.len(),
{
    if ts.len() == 0 {
    } else if ts[0].0 == k {
    } else {
        let tail = ts.drop_first();
        lemma_find_tally_props(tail, k);
        let r = find_tally(tail, k);
        if r == -1 {
            assert forall|j: int| 0 <= j < ts.len() implies (#[trigger] ts[j]).0 != k by {
                if j > 0 {
                    assert(ts[j] == tail[j - 1]);
                }
            }
        } else {
            assert(ts[r + 1] == tail[r]);
            assert forall|j: int| 0 <= j < r + 1 implies (#[trigger] ts[j]).0 != k by {
                if j > 0 {
                    assert(ts[j] == tail[j - 1]);
                }
            }
        }
    }
}

pub proof fn lemma_find_tally_is(ts: Seq<(Seq<char>, int)>, k: Seq<char>, i: int)
    requires
        0 <= i < ts.len(),
        ts[i].0 == k,
        forall|j: int| 0 <= j < i ==> (#[trigger] ts[j]).0 != k,
    ensures
        find_tally(ts, k) == i,
{
    lemma_find_tally_props(ts, k);
}

/// Add `n` to the tally under `k`, creating the entry when absent.
pub open spec fn add_tally_v(ts: Seq<(Seq<char>, int)>, k: Seq<char>, n: int) -> Seq<
    (Seq<char>, int),
> {
    let i = find_tally(ts, k);
    if i == -1 {
        ts.push((k, n))
    } else {
        ts.update(i, (k, ts[i].1 + n))
    }
}

/// Fold the right tally onto the left one, entry by entry in order.
pub open spec fn merge_tallies_v(a: Seq<(Seq<char>, int)>, b: Seq<(Seq<char>, int)>) -> Seq<
    (Seq<char>, int),
>
    decreases b.len(),
{
    if b.len() == 0 {
        a
    } else {
        add_tally_v(merge_tallies_v(a, b.drop_last()), b.last().0, b.last().1)
    }
}

pub open spec fn tally_nonneg(ts: Seq<(Seq<char>, int)>) -> bool {
    forall|i: int| 0 <= i < ts.len() ==> (#[trigger] ts[i]).1 >= 0
}

/// Sum of every tally value; the tallies of a summary sum to its count.
pub open spec fn tally_sum(ts: Seq<(Seq<char>, int)>) -> int
    decreases ts.len(),
{
    if ts.len() == 0 {
        0
    } else {
        tally_sum(ts.drop_last()) + ts.last().1
    }
}

pub proof fn lemma_tally_sum_nonneg(ts: Seq<(Seq<char>, int)>)
    requires
        tally_nonneg(ts),
    ensures
        tally_sum(ts) >= 0,
    decreases ts.len(),
{
    if ts.len() > 0 {
        assert(tally_nonneg(ts.drop_last()));
        lemma_tally_sum_nonneg(ts.drop_last());
    }
}

pub proof fn lemma_tally_value_le_sum(ts: Seq<(Seq<char>, int)>, i: int)
    requires
        tally_nonneg(ts),
        0 <= i < ts.len(),
    ensures
        ts[i].1 <= tally_sum(ts),
    decreases ts.len(),
{
    assert(tally_nonneg(ts.drop_last()));
    if i == ts.len() - 1 {
        lemma_tally_sum_nonneg(ts.drop_last());
    } else {
        lemma_tally_value_le_sum(ts.drop_last(), i);
    }
}

pub proof fn lemma_tally_sum_update(ts: Seq<(Seq<char>, int)>, i: int, e: (Seq<char>, int))
    requires
        0 <= i < ts.len(),
    ensures
        tally_sum(ts.update(i, e)) == tally_sum(ts) - ts[i].1 + e.1,
    decreases ts.len(),
{
    let u = ts.update(i, e);
    if i == ts.len() - 1 {
        assert(u.drop_last() =~= ts.drop_last());
        assert(u.last() == e);
    } else {
        assert(u.drop_last() =~= ts.drop_last().update(i, e));
        assert(u.last() == ts.last());
        lemma_tally_sum_update(ts.drop_last(), i, e);
    }
}

/// Adding `n >= 0` to a tally keeps every value nonnegative and raises the
/// value sum by exactly `n`.
pub proof fn lemma_add_tally_props(ts: Seq<(Seq<char>, int)>, k: Seq<char>, n: int)
    requires
        tally_nonneg(ts),
        n >= 0,
    ensures
        tally_nonneg(add_tally_v(ts, k, n)),
        tally_sum(add_tally_v(ts, k, n)) == tally_sum(ts) + n,
{
    lemma_find_tally_props(ts, k);
    let i = find_tally(ts, k);
    let a = add_tally_v(ts, k, n);
    if i == -1 {
        assert(a.drop_last() =~= ts);
        assert(a.last() == (k, n));
    } else {
        lemma_tally_sum_update(ts, i, (k, ts[i].1 + n));
    }
}

/// Merging tallies keeps values nonnegative and adds the value sums.
pub proof fn lemma_merge_tallies_props(a: Seq<(Seq<char>, int)>, b: Seq<(Seq<char>, int)>)
    requires
        tally_nonneg(a),
        tally_nonneg(b),
    ensures
        tally_nonneg(merge_tallies_v(a, b)),
        tally_sum(merge_tallies_v(a, b)) == tally_sum(a) + tally_sum(b),
    decreases b.len(),
{
    if b.len() > 0 {
        assert(tally_nonneg(b.drop_last()));
        lemma_merge_tallies_props(a, b.drop_last());
        lemma_add_tally_props(merge_tallies_v(a, b.drop_last()), b.last().0, b.last().1);
    }
}

pub proof fn lemma_tally_sum_take_le(ts: Seq<(Seq<char>, int)>, i: int)
    requires
        tally_nonneg(ts),
        0 <= i <= ts.len(),
    ensures
        tally_sum(ts.take(i)) <= tally_sum(ts),
        tally_sum(ts.take(i)) >= 0,
    decreases ts.len(),
{
    assert(tally_nonneg(ts.take(i)));
    lemma_tally_sum_nonneg(ts.take(i));
    if i == ts.len() {
        assert(ts.take(i) =~= ts);
    } else {
        assert(tally_nonneg(ts.drop_last()));
        assert(ts.drop_last().take(i) =~= ts.take(i));
        lemma_tally_sum_take_le(ts.drop_last(), i);
    }
}

/// Count of High-severity findings.
pub open spec fn high_count(fs: Seq<FindingV>) -> int
    decreases fs.len(),
{
    if fs.len() == 0 {
        0int
    } else {
        high_count(fs.drop_last()) + (if fs.last().severity == Severity::High {
            1int
        } else {
            0int
        })
    }
}

pub proof fn lemma_high_count_bounds(fs: Seq<FindingV>)
    ensures
        0 <= high_count(fs) <= fs.len(),
    decreases fs.len(),
{
    if fs.len() > 0 {
        lemma_high_count_bounds(fs.drop_last());
    }
}

/// What one analyzed document contributes to a summary.
pub struct FoldItem {
    pub kind: Seq<char>,
    pub namespace: Seq<char>,
    pub complexity: int,
    pub security: int,
    pub performance: int,
    pub reliability: int,
    pub issues: int,
    pub high: int,
}

pub open spec fn item_of_analysis(a: Analysis) -> FoldItem {
    FoldItem {
        kind: a.identity.kind@,
        namespace: a.identity.namespace@,
        complexity: a.complexity_score as int,
        security: a.security_score as int,
        performance: a.performance_score as int,
        reliability: a.reliability_score as int,
        issues: a.findings@.len() as int,
        high: high_count(findings_view(a.findings@)),
    }
}

/// Mathematical shape of a [`RunningSummary`].
pub struct RunningSummaryV {
    pub count: int,
    pub kind_counts: Seq<(Seq<char>, int)>,
    pub namespace_counts: Seq<(Seq<char>, int)>,
    pub complexity_total: int,
    pub security_total: int,
    pub performance_total: int,
    pub reliability_total: int,
    pub total_issues: int,
    pub high_severity_issues: int,
}

pub open spec fn empty_summary_v() -> RunningSummaryV {
    RunningSummaryV {
        count: 0,
        kind_counts: Seq::empty(),
        namespace_counts: Seq::empty(),
        complexity_total: 0,
        security_total: 0,
        performance_total: 0,
        reliability_total: 0,
        total_issues: 0,
        high_severity_issues: 0,
    }
}

/// One fold step: the document is counted, its kind and namespace tallied,
/// its scores added to the running totals, and its findings added to the
/// issue counts.
pub open spec fn fold_v(s: RunningSummaryV, it: FoldItem) -> RunningSummaryV {
    RunningSummaryV {
        count: s.count + 1,
        kind_counts: add_tally_v(s.kind_counts, it.kind, 1),
        namespace_counts: add_tally_v(s.namespace_counts, it.namespace, 1),
        complexity_total: s.complexity_total + it.complexity,
        security_total: s.security_total + it.security,
        performance_total: s.performance_total + it.performance,
        reliability_total: s.reliability_total + it.reliability,
        total_issues: s.total_issues + it.issues,
        high_severity_issues: s.high_severity_issues + it.high,
    }
}

/// Merge of two shard summaries: counts, tallies and totals all add.
pub open spec fn merge_v(a: RunningSummaryV, b: RunningSummaryV) -> RunningSummaryV {
    RunningSummaryV {
        count: a.count + b.count,
        kind_counts: merge_tallies_v(a.kind_counts, b.kind_counts),
        namespace_counts: merge_tallies_v(a.namespace_counts, b.namespace_counts),
        complexity_total: a.complexity_total + b.complexity_total,
        security_total: a.security_total + b.security_total,
        performance_total: a.performance_total + b.performance_total,
        reliability_total: a.reliability_total + b.reliability_total,
        total_issues: a.total_issues + b.total_issues,
        high_severity_issues: a.high_severity_issues + b.high_severity_issues,
    }
}

pub open spec fn summary_wf(s: RunningSummaryV) -> bool {
    &&& 0 <= s.count
    &&& 0 <= s.complexity_total <= 100 * s.count
    &&& 0 <= s.security_total <= 100 * s.count
    &&& 0 <= s.performance_total <= 100 * s.count
    &&& 0 <= s.reliability_total <= 100 * s.count
    &&& 0 <= s.high_severity_issues <= s.total_issues
    &&& tally_nonneg(s.kind_counts) && tally_sum(s.kind_counts) <= s.count
    &&& tally_nonneg(s.namespace_counts) && tally_sum(s.namespace_counts) <= s.count
}

/// Incrementally maintained batch summary: a document count, per-kind and
/// per-namespace tallies, the four running score totals (each running
/// average is its total divided by the count, kept exactly as a sum), and
/// the issue counts.
#[derive(Debug, PartialEq)]
pub struct RunningSummary {
    pub count: u64,
    pub kind_counts: Vec<(String, u64)>,
    pub namespace_counts: Vec<(String, u64)>,
    pub complexity_total: u64,
    pub security_total: u64,
    pub performance_total: u64,
    pub reliability_total: u64,
    pub total_issues: u64,
    pub high_severity_issues: u64,
}

pub open spec fn tally_view(ts: Seq<(String, u64)>) -> Seq<(Seq<char>, int)> {
    Seq::new(ts.len(), |i: int| (ts[i].0@, ts[i].1 as int))
}

pub open spec fn summary_view(s: RunningSummary) -> RunningSummaryV {
    RunningSummaryV {
        count: s.count as int,
        kind_counts: tally_view(s.kind_counts@),
        namespace_counts: tally_view(s.namespace_counts@),
        complexity_total: s.complexity_total as int,
        security_total: s.security_total as int,
        performance_total: s.performance_total as int,
        reliability_total: s.reliability_total as int,
        total_issues: s.total_issues as int,
        high_severity_issues: s.high_severity_issues as int,
    }
}

#[verifier::loop_isolation(false)]
fn add_tally(ts: &mut Vec<(String, u64)>, k: &String, n: u64)
    requires
        tally_nonneg(tally_view(old(ts)@)),
        tally_sum(tally_view(old(ts)@)) + n <= (0xFFFF_FFFF_FFFF_FFFFu64 as int),
    ensures
        tally_view(final(ts)@) == add_tally_v(tally_view(old(ts)@), k@, n as int),
{
    let ghost tv = tally_view(ts@);
    let mut i: usize = 0;
    while i < ts.len()
        invariant
            0 <= i <= ts.len(),
            *ts == *old(ts),
            forall|j: int| 0 <= j < i ==> (#[trigger] tv[j]).0 != k@,
        decreases ts.len() - i,
    {
        if ts[i].0.eq(k) {
            proof {
                lemma_find_tally_is(tv, k@, i as int);
                lemma_tally_value_le_sum(tv, i as int);
                lemma_tally_sum_nonneg(tv);
            }
            let old_val = ts[i].1;
            let entry = ts.remove(i);
            ts.insert(i, (entry.0, old_val + n));
            proof {
                assert(tally_view(ts@) =~= add_tally_v(tv, k@, n as int));
            }
            return ;
        }
        i = i + 1;
    }
    proof {
        lemma_find_tally_props(tv, k@);
        if find_tally(tv, k@) != -1 {
            let f = find_tally(tv, k@);
            assert(tv[f].0 != k@);
        }
    }
    ts.push((k.clone(), n));
    proof {
        assert(tally_view(ts@) =~= add_tally_v(tv, k@, n as int));
    }
}

fn count_high(fs: &Vec<Finding>) -> (r: u64)
    ensures
        r == high_count(findings_view(fs@)),
        r <= fs@.len(),
{
    let ghost fv = findings_view(fs@);
    let mut h: u64 = 0;
    let mut i: usize = 0;
    while i < fs.len()
        invariant
            0 <= i <= fs.len(),
            fv == findings_view(fs@),
            fv.len() == fs@.len(),
            h == high_count(fv.take(i as int)),
            h <= i,
        decreases fs.len() - i,
    {
        proof {
            assert(fv.take(i + 1).drop_last() =~= fv.take(i as int));
            assert(fv.take(i + 1).last() == fv[i as int]);
        }
        if matches!(fs[i].severity, Severity::High) {
            h = h + 1;
        }
        i = i + 1;
    }
    proof {
        assert(fv.take(fs@.len() as int) =~= fv);
    }
    h
}

impl RunningSummary {
    /// The empty summary a batch starts from.
    pub fn new() -> (r: RunningSummary)
        ensures
            summary_view(r) == empty_summary_v(),
            summary_wf(summary_view(r)),
    {
        let r = RunningSummary {
            count: 0,
            kind_counts: Vec::new(),
            namespace_counts: Vec::new(),
            complexity_total: 0,
            security_total: 0,
            performance_total: 0,
            reliability_total: 0,
            total_issues: 0,
            high_severity_issues: 0,
        };
        proof {
            assert(tally_view(r.kind_counts@) =~= Seq::<(Seq<char>, int)>::empty());
            assert(tally_view(r.namespace_counts@) =~= Seq::<(Seq<char>, int)>::empty());
        }
        r
    }

    /// Folds one analyzed document into the summary, in arrival order.
    pub fn fold(&mut self, a: &Analysis)
        requires
            summary_wf(summary_view(*old(self))),
            old(self).count < 0x0100_0000_0000_0000u64,
            (old(self).total_issues as int) + a.findings@.len() <= (0xFFFF_FFFF_FFFF_FFFFu64 as int),
            a.complexity_score <= 100,
            a.security_score <= 100,
            a.performance_score <= 100,
            a.reliability_score <= 100,
        ensures
            summary_view(*final(self)) == fold_v(summary_view(*old(self)), item_of_analysis(*a)),
            summary_wf(summary_view(*final(self))),
    {
        proof {
            lemma_high_count_bounds(findings_view(a.findings@));
            lemma_tally_sum_nonneg(summary_view(*old(self)).kind_counts);
            lemma_tally_sum_nonneg(summary_view(*old(self)).namespace_counts);
        }
        self.count = self.count + 1;
        bump_count(&mut self.kind_counts, &a.identity.kind);
        bump_count(&mut self.namespace_counts, &a.identity.namespace);
        self.complexity_total = self.complexity_total + (a.complexity_score as u64);
        self.security_total = self.security_total + (a.security_score as u64);
        self.performance_total = self.performance_total + (a.performance_score as u64);
        self.reliability_total = self.reliability_total + (a.reliability_score as u64);
        let issues = a.findings.len();
        let high = count_high(&a.findings);
        self.total_issues = self.total_issues + (issues as u64);
        self.high_severity_issues = self.high_severity_issues + high;
        proof {
            let o = summary_view(*old(self));
            lemma_add_tally_props(o.kind_counts, a.identity.kind@, 1);
            lemma_add_tally_props(o.namespace_counts, a.identity.namespace@, 1);
        }
    }

    /// Merges another shard's summary into this one: counts, tallies and
    /// totals all add, so a reduce over shards equals one serial fold.
    pub fn merge(&mut self, other: &RunningSummary)
        requires
            summary_wf(summary_view(*old(self))),
            summary_wf(summary_view(*other)),
            (old(self).count as int) + (other.count as int) < (0x0100_0000_0000_0000u64 as int),
            (old(self).total_issues as int) + (other.total_issues as int) <= (0xFFFF_FFFF_FFFF_FFFFu64 as int),
        ensures
            summary_view(*final(self)) == merge_v(summary_view(*old(self)), summary_view(*other)),
            summary_wf(summary_view(*final(self))),
    {
        self.count = self.count + other.count;
        self.complexity_total = self.complexity_total + other.complexity_total;
        self.security_total = self.security_total + other.security_total;
        self.performance_total = self.performance_total + other.performance_total;
        self.reliability_total = self.reliability_total + other.reliability_total;
        self.total_issues = self.total_issues + other.total_issues;
        self.high_severity_issues = self.high_severity_issues + other.high_severity_issues;
        merge_counts(&mut self.kind_counts, &other.kind_counts);
        merge_counts(&mut self.namespace_counts, &other.namespace_counts);
        proof {
            lemma_merge_tallies_props(
                summary_view(*old(self)).kind_counts,
                tally_view(other.kind_counts@),
            );
            lemma_merge_tallies_props(
                summary_view(*old(self)).namespace_counts,
                tally_view(other.namespace_counts@),
            );
        }
    }
}

fn bump_count(ts: &mut Vec<(String, u64)>, k: &String)
    requires
        tally_nonneg(tally_view(old(ts)@)),
        tally_sum(tally_view(old(ts)@)) + 1 <= (0xFFFF_FFFF_FFFF_FFFFu64 as int),
    ensures
        tally_view(final(ts)@) == add_tally_v(tally_view(old(ts)@), k@, 1),
{
    add_tally(ts, k, 1);
}

#[verifier::loop_isolation(false)]
fn merge_counts(ts: &mut Vec<(String, u64)>, other: &Vec<(String, u64)>)
    requires
        tally_nonneg(tally_view(old(ts)@)),
        tally_nonneg(tally_view(other@)),
        tally_sum(tally_view(old(ts)@)) + tally_sum(tally_view(other@))
            <= (0xFFFF_FFFF_FFFF_FFFFu64 as int),
    ensures
        tally_view(final(ts)@) == merge_tallies_v(tally_view(old(ts)@), tally_view(other@)),
{
    let ghost av = tally_view(ts@);
    let ghost bv = tally_view(other@);
    proof {
        lemma_tally_sum_nonneg(av);
    }
    let mut i: usize = 0;
    while i < other.len()
        invariant
            0 <= i <= other.len(),
            tally_view(ts@) == merge_tallies_v(av, bv.take(i as int)),
            tally_nonneg(tally_view(ts@)),
            tally_sum(tally_view(ts@)) == tally_sum(av) + tally_sum(bv.take(i as int)),
        decreases other.len() - i,
    {
        proof {
            assert(bv.take(i + 1).drop_last() =~= bv.take(i as int));
            assert(bv.take(i + 1).last() == bv[i as int]);
            lemma_tally_sum_take_le(bv, i + 1);
            assert(bv[i as int].1 >= 0);
            assert(tally_sum(bv.take(i + 1)) == tally_sum(bv.take(i as int)) + bv[i as int].1);
            lemma_add_tally_props(tally_view(ts@), bv[i as int].0, bv[i as int].1);
        }
        add_tally(ts, &other[i].0, other[i].1);
        i = i + 1;
    }
    proof {
        assert(bv.take(other@.len() as int) =~= bv);
    }
}

/// Sum of one score dimension over a batch of fold items.
pub open spec fn sum_items(items: Seq<FoldItem>, f: spec_fn(FoldItem) -> int) -> int
    decreases items.len(),
{
    if items.len() == 0 {
        0
    } else {
        sum_items(items.drop_last(), f) + f(items.last())
    }
}

/// Serial fold of a batch of documents, in arrival order.
pub open spec fn fold_seq_v(s: RunningSummaryV, items: Seq<FoldItem>) -> RunningSummaryV
    decreases items.len(),
{
    if items.len() == 0 {
        s
    } else {
        fold_v(fold_seq_v(s, items.drop_last()), items.last())
    }
}

/// Running-average correctness: after folding a batch into the empty
/// summary, the count is the batch size and each score total is the exact
/// sum of that dimension's scores, so every running average (total divided
/// by count) equals the mean of the folded scores.
pub proof fn lemma_fold_seq_mean(items: Seq<FoldItem>)
    ensures
        fold_seq_v(empty_summary_v(), items).count == items.len(),
        fold_seq_v(empty_summary_v(), items).complexity_total == sum_items(
            items,
            |it: FoldItem| it.complexity,
        ),
        fold_seq_v(empty_summary_v(), items).security_total == sum_items(
            items,
            |it: FoldItem| it.security,
        ),
        fold_seq_v(empty_summary_v(), items).performance_total == sum_items(
            items,
            |it: FoldItem| it.performance,
        ),
        fold_seq_v(empty_summary_v(), items).reliability_total == sum_items(
            items,
            |it: FoldItem| it.reliability,
        ),
    decreases items.len(),
{
    if items.len() > 0 {
        lemma_fold_seq_mean(items.drop_last());
    }
}

pub proof fn lemma_sum_items_append(
    xs: Seq<FoldItem>,
    ys: Seq<FoldItem>,
    f: spec_fn(FoldItem) -> int,
)
    ensures
        sum_items(xs + ys, f) == sum_items(xs, f) + sum_items(ys, f),
    decreases ys.len(),
{
    if ys.len() == 0 {
        assert(xs + ys =~= xs);
    } else {
        assert((xs + ys).drop_last() =~= xs + ys.drop_last());
        assert((xs + ys).last() == ys.last());
        lemma_sum_items_append(xs, ys.drop_last(), f);
    }
}

/// Shard-merge equivalence: two shards folded separately and then merged
/// carry the same count and the same four score totals as one serial fold
/// of the concatenated batch, so the running averages agree exactly.
pub proof fn lemma_merge_matches_serial_fold(xs: Seq<FoldItem>, ys: Seq<FoldItem>)
    ensures
        merge_v(fold_seq_v(empty_summary_v(), xs), fold_seq_v(empty_summary_v(), ys)).count
            == fold_seq_v(empty_summary_v(), xs + ys).count,
        merge_v(
            fold_seq_v(empty_summary_v(), xs),
            fold_seq_v(empty_summary_v(), ys),
        ).complexity_total == fold_seq_v(empty_summary_v(), xs + ys).complexity_total,
        merge_v(
            fold_seq_v(empty_summary_v(), xs),
            fold_seq_v(empty_summary_v(), ys),
        ).security_total == fold_seq_v(empty_summary_v(), xs + ys).security_total,
        merge_v(
            fold_seq_v(empty_summary_v(), xs),
            fold_seq_v(empty_summary_v(), ys),
        ).performance_total == fold_seq_v(empty_summary_v(), xs + ys).performance_total,
        merge_v(
            fold_seq_v(empty_summary_v(), xs),
            fold_seq_v(empty_summary_v(), ys),
        ).reliability_total == fold_seq_v(empty_summary_v(), xs + ys).reliability_total,
{
    lemma_fold_seq_mean(xs);
    lemma_fold_seq_mean(ys);
    lemma_fold_seq_mean(xs + ys);
    lemma_sum_items_append(xs, ys, |it: FoldItem| it.complexity);
    lemma_sum_items_append(xs, ys, |it: FoldItem| it.security);
    lemma_sum_items_append(xs, ys, |it: FoldItem| it.performance);
    lemma_sum_items_append(xs, ys, |it: FoldItem| it.reliability);
}

/// Recommendations for one file's summary: hardening and resource advice
/// when the average security or performance score falls below 70, a call to
/// address the exact count of high-severity issues, and, in detailed mode,
/// a note on files holding more than five resources.  Averages are compared
/// exactly: `total < 70 * count` is `total / count < 70`, and an empty
/// summary counts as below threshold.
pub open spec fn file_recommendations_v(s: RunningSummaryV, detailed: bool) -> Seq<Seq<char>> {
    (if s.count == 0 || s.security_total < 70 * s.count {
        seq![
            "Consider improving security by adding security contexts and avoiding latest image tags"@,
        ]
    } else {
        Seq::empty()
    }) + (if s.count == 0 || s.performance_total < 70 * s.count {
        seq![
            "Add resource requests and limits to improve performance and resource management"@,
        ]
    } else {
        Seq::empty()
    }) + (if s.high_severity_issues > 0 {
        seq![
            "Address "@ + crate::util::dec_of(s.high_severity_issues) +
                " high-severity issues to improve overall quality"@,
        ]
    } else {
        Seq::empty()
    }) + (if detailed && s.count > 5 {
        seq![
            "Consider splitting this file into smaller, more focused files for better maintainability"@,
        ]
    } else {
        Seq::empty()
    })
}

/// Recommendations for the whole batch: hardening and resource advice when
/// the average security or performance score falls below 80, a process note
/// when issues outnumber resources two to one, and, in detailed mode, a
/// note on batches spanning more than five resource kinds.
pub open spec fn overall_recommendations_v(s: RunningSummaryV, detailed: bool) -> Seq<Seq<char>> {
    (if s.count == 0 || s.security_total < 80 * s.count {
        seq![
            "Overall security score is below recommended threshold. Focus on improving security contexts and image management."@,
        ]
    } else {
        Seq::empty()
    }) + (if s.count == 0 || s.performance_total < 80 * s.count {
        seq![
            "Performance can be improved by adding proper resource management across all resources."@,
        ]
    } else {
        Seq::empty()
    }) + (if s.total_issues > 2 * s.count {
        seq![
            "High number of issues detected. Consider implementing a systematic review process."@,
        ]
    } else {
        Seq::empty()
    }) + (if detailed && s.kind_counts.len() > 5 {
        seq![
            "Multiple resource types detected. Consider organizing by application or namespace."@,
        ]
    } else {
        Seq::empty()
    })
}

fn below_scaled(total: u64, factor: u64, count: u64) -> (r: bool)
    requires
        factor <= 100,
    ensures
        r == ((total as int) < factor * (count as int)),
{
    proof {
        let f = factor as int;
        let c = count as int;
        assert(f * c <= 100 * (0xFFFF_FFFF_FFFF_FFFFu64 as int)) by (nonlinear_arith)
            requires
                0 <= f <= 100,
                0 <= c <= (0xFFFF_FFFF_FFFF_FFFFu64 as int),
        ;
    }
    (total as u128) < (factor as u128) * (count as u128)
}

/// Recommendations derived from one file's summary.
pub fn generate_file_recommendations(summary: &RunningSummary, detailed: bool) -> (r: Vec<String>)
    ensures
        crate::rules::strs_view(r@) == file_recommendations_v(summary_view(*summary), detailed),
{
    let ghost sv = summary_view(*summary);
    let mut recs: Vec<String> = Vec::new();
    proof {
        assert(crate::rules::strs_view(recs@) =~= Seq::<Seq<char>>::empty());
    }
    if summary.count == 0 || below_scaled(summary.security_total, 70, summary.count) {
        recs.push(
            "Consider improving security by adding security contexts and avoiding latest image tags".to_owned(),
        );
    }
    let ghost p1 = crate::rules::strs_view(recs@);
    proof {
        assert(p1 =~= (if sv.count == 0 || sv.security_total < 70 * sv.count {
            seq![
                "Consider improving security by adding security contexts and avoiding latest image tags"@,
            ]
        } else {
            Seq::<Seq<char>>::empty()
        }));
    }
    if summary.count == 0 || below_scaled(summary.performance_total, 70, summary.count) {
        recs.push(
            "Add resource requests and limits to improve performance and resource management".to_owned(),
        );
    }
    let ghost p2 = crate::rules::strs_view(recs@);
    proof {
        assert(p2 =~= p1 + (if sv.count == 0 || sv.performance_total < 70 * sv.count {
            seq![
                "Add resource requests and limits to improve performance and resource management"@,
            ]
        } else {
            Seq::<Seq<char>>::empty()
        }));
    }
    if summary.high_severity_issues > 0 {
        let count_text = crate::util::u64_to_string(summary.high_severity_issues);
        let msg = "Address ".to_owned().concat(count_text.as_str()).concat(
            " high-severity issues to improve overall quality",
        );
        recs.push(msg);
    }
    let ghost p3 = crate::rules::strs_view(recs@);
    proof {
        assert(p3 =~= p2 + (if sv.high_severity_issues > 0 {
            seq![
                "Address "@ + crate::util::dec_of(sv.high_severity_issues) +
                    " high-severity issues to improve overall quality"@,
            ]
        } else {
            Seq::<Seq<char>>::empty()
        }));
    }
    if detailed && summary.count > 5 {
        recs.push(
            "Consider splitting this file into smaller, more focused files for better maintainability".to_owned(),
        );
    }
    proof {
        assert(crate::rules::strs_view(recs@) =~= p3 + (if detailed && sv.count > 5 {
            seq![
                "Consider splitting this file into smaller, more focused files for better maintainability"@,
            ]
        } else {
            Seq::<Seq<char>>::empty()
        }));
        assert(crate::rules::strs_view(recs@) =~= file_recommendations_v(sv, detailed));
    }
    recs
}

/// Recommendations derived from the overall batch summary.
pub fn generate_overall_recommendations(stats: &RunningSummary, detailed: bool) -> (r: Vec<String>)
    ensures
        crate::rules::strs_view(r@) == overall_recommendations_v(summary_view(*stats), detailed),
{
    let ghost sv = summary_view(*stats);
    let mut recs: Vec<String> = Vec::new();
    proof {
        assert(crate::rules::strs_view(recs@) =~= Seq::<Seq<char>>::empty());
    }
    if stats.count == 0 || below_scaled(stats.security_total, 80, stats.count) {
        recs.push(
            "Overall security score is below recommended threshold. Focus on improving security contexts and image management.".to_owned(),
        );
    }
    let ghost p1 = crate::rules::strs_view(recs@);
    proof {
        assert(p1 =~= (if sv.count == 0 || sv.security_total < 80 * sv.count {
            seq![
                "Overall security score is below recommended threshold. Focus on improving security contexts and image management."@,
            ]
        } else {
            Seq::<Seq<char>>::empty()
        }));
    }
    if stats.count == 0 || below_scaled(stats.performance_total, 80, stats.count) {
        recs.push(
            "Performance can be improved by adding proper resource management across all resources.".to_owned(),
        );
    }
    let ghost p2 = crate::rules::strs_view(recs@);
    proof {
        assert(p2 =~= p1 + (if sv.count == 0 || sv.performance_total < 80 * sv.count {
            seq![
                "Performance can be improved by adding proper resource management across all resources."@,
            ]
        } else {
            Seq::<Seq<char>>::empty()
        }));
    }
    let many_issues = (stats.total_issues as u128) > 2u128 * (stats.count as u128);
    if many_issues {
        recs.push(
            "High number of issues detected. Consider implementing a systematic review process.".to_owned(),
        );
    }
    let ghost p3 = crate::rules::strs_view(recs@);
    proof {
        assert(p3 =~= p2 + (if sv.total_issues > 2 * sv.count {
            seq![
                "High number of issues detected. Consider implementing a systematic review process."@,
            ]
        } else {
            Seq::<Seq<char>>::empty()
        }));
    }
    if detailed && stats.kind_counts.len() > 5 {
        recs.push(
            "Multiple resource types detected. Consider organizing by application or namespace.".to_owned(),
        );
    }
    proof {
        assert(crate::rules::strs_view(recs@) =~= p3 + (if detailed && sv.kind_counts.len() > 5 {
            seq![
                "Multiple resource types detected. Consider organizing by application or namespace."@,
            ]
        } else {
            Seq::<Seq<char>>::empty()
        }));
        assert(crate::rules::strs_view(recs@) =~= overall_recommendations_v(sv, detailed));
    }
    recs
}

} // verus!
