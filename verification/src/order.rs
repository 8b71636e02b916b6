//! Newest-first ordering of catalog rows.
//!
//! Rows are stored in insertion order and stamped with a timestamp key that
//! never decreases along the store's history.  Queries return rows ordered
//! by key descending; rows with equal keys keep their insertion order, as
//! the backing SQL engine does.  That ordering is described here as a
//! mathematical function on sequences: the sequence is split into maximal
//! runs of equal keys, the runs are emitted newest first, and each run is
//! emitted in insertion order.

use vstd::prelude::*;

verus! {

/// A row type with a timestamp-like ordering key.
pub trait Keyed {
    spec fn key(&self) -> int;
}

/// The keys of `s` never decrease from older to newer rows.
pub open spec fn nondecreasing<T: Keyed>(s: Seq<T>) -> bool {
    forall|i: int, j: int| 0 <= i <= j < s.len() ==> #[trigger] s[i].key() <= #[trigger] s[j].key()
}

/// Start index of the maximal run of equal keys that contains index `i`.
pub open spec fn run_start<T: Keyed>(s: Seq<T>, i: int) -> int
    decreases i,
{
    if i <= 0 {
        0
    } else if s[i - 1].key() == s[i].key() {
        run_start(s, i - 1)
    } else {
        i
    }
}

pub proof fn lemma_run_start_le<T: Keyed>(s: Seq<T>, i: int)
    ensures
        0 <= run_start(s, i) <= i || (i < 0 && run_start(s, i) == 0),
    decreases i,
{
    if i > 0 && s[i - 1].key() == s[i].key() {
        lemma_run_start_le(s, i - 1);
    }
}

/// Everything inside the run has the key of its end, and the run is maximal.
pub proof fn lemma_run_start_props<T: Keyed>(s: Seq<T>, i: int)
    requires
        0 <= i < s.len(),
    ensures
        0 <= run_start(s, i) <= i,
        forall|j: int| run_start(s, i) <= j <= i ==> #[trigger] s[j].key() == s[i].key(),
        run_start(s, i) > 0 ==> s[run_start(s, i) - 1].key() != s[i].key(),
    decreases i,
{
    if i > 0 && s[i - 1].key() == s[i].key() {
        lemma_run_start_props(s, i - 1);
    }
}

/// The run start is the only index with the properties above.
pub proof fn lemma_run_start_unique<T: Keyed>(s: Seq<T>, i: int, k: int)
    requires
        0 <= k <= i < s.len(),
        forall|j: int| k <= j <= i ==> #[trigger] s[j].key() == s[i].key(),
        k > 0 ==> s[k - 1].key() != s[i].key(),
    ensures
        k == run_start(s, i),
    decreases i,
{
    lemma_run_start_props(s, i);
    if i > 0 && s[i - 1].key() == s[i].key() {
        lemma_run_start_unique(s, i - 1, k);
    }
}

/// Newest-first view of the prefix `s[0..n]`: maximal runs of equal keys,
/// runs reversed, each run kept in insertion order.
pub open spec fn ordered_upto<T: Keyed>(s: Seq<T>, n: int) -> Seq<T>
    decreases n,
    via ordered_upto_dec::<T>
{
    if n <= 0 {
        Seq::empty()
    } else {
        let k = run_start(s, n - 1);
        s.subrange(k, n) + ordered_upto(s, k)
    }
}

#[via_fn]
proof fn ordered_upto_dec<T: Keyed>(s: Seq<T>, n: int) {
    if n > 0 {
        lemma_run_start_le(s, n - 1);
    }
}

/// Newest-first view of the whole sequence.
pub open spec fn ordered<T: Keyed>(s: Seq<T>) -> Seq<T> {
    ordered_upto(s, s.len() as int)
}

pub proof fn lemma_ordered_len<T: Keyed>(s: Seq<T>, n: int)
    requires
        0 <= n <= s.len(),
    ensures
        ordered_upto(s, n).len() == n,
    decreases n,
{
    if n > 0 {
        lemma_run_start_props(s, n - 1);
        lemma_ordered_len(s, run_start(s, n - 1));
    }
}

/// Every element of the ordered prefix view comes from that prefix.
pub proof fn lemma_ordered_source<T: Keyed>(s: Seq<T>, n: int)
    requires
        0 <= n <= s.len(),
    ensures
        forall|a: int| 0 <= a < ordered_upto(s, n).len()
            ==> exists|j: int| 0 <= j < n && #[trigger] ordered_upto(s, n)[a] == s[j],
    decreases n,
{
    if n > 0 {
        let k = run_start(s, n - 1);
        lemma_run_start_props(s, n - 1);
        lemma_ordered_source(s, k);
        lemma_ordered_len(s, k);
        assert forall|a: int| 0 <= a < ordered_upto(s, n).len()
            implies exists|j: int| 0 <= j < n && #[trigger] ordered_upto(s, n)[a] == s[j] by {
            if a < n - k {
                assert(ordered_upto(s, n)[a] == s[k + a]);
            } else {
                let a2 = a - (n - k);
                assert(ordered_upto(s, n)[a] == ordered_upto(s, k)[a2]);
                let j = choose|j: int| 0 <= j < k && #[trigger] ordered_upto(s, k)[a2] == s[j];
                assert(ordered_upto(s, n)[a] == s[j]);
            }
        }
    }
}

/// In the ordered prefix view every key is bounded by the newest key.
pub proof fn lemma_ordered_key_bound<T: Keyed>(s: Seq<T>, n: int)
    requires
        nondecreasing(s),
        0 < n <= s.len(),
    ensures
        forall|a: int| 0 <= a < ordered_upto(s, n).len()
            ==> #[trigger] ordered_upto(s, n)[a].key() <= s[n - 1].key(),
    decreases n,
{
    let k = run_start(s, n - 1);
    lemma_run_start_props(s, n - 1);
    if k > 0 {
        lemma_ordered_key_bound(s, k);
    }
    lemma_ordered_len(s, k);
    assert forall|a: int| 0 <= a < ordered_upto(s, n).len()
        implies #[trigger] ordered_upto(s, n)[a].key() <= s[n - 1].key() by {
        if a < n - k {
            assert(ordered_upto(s, n)[a] == s[k + a]);
        } else {
            let a2 = a - (n - k);
            assert(ordered_upto(s, n)[a] == ordered_upto(s, k)[a2]);
        }
    }
}

/// The ordered view is sorted: keys never increase from front to back.
pub proof fn lemma_ordered_nonincreasing<T: Keyed>(s: Seq<T>, n: int)
    requires
        nondecreasing(s),
        0 <= n <= s.len(),
    ensures
        forall|a: int, b: int| 0 <= a <= b < ordered_upto(s, n).len()
            ==> #[trigger] ordered_upto(s, n)[a].key() >= #[trigger] ordered_upto(s, n)[b].key(),
    decreases n,
{
    if n > 0 {
        let k = run_start(s, n - 1);
        lemma_run_start_props(s, n - 1);
        lemma_ordered_nonincreasing(s, k);
        lemma_ordered_len(s, k);
        if k > 0 {
            lemma_ordered_key_bound(s, k);
        }
        assert forall|a: int, b: int| 0 <= a <= b < ordered_upto(s, n).len()
            implies #[trigger] ordered_upto(s, n)[a].key() >= #[trigger] ordered_upto(s, n)[b].key() by {
            if a >= n - k {
                let a2 = a - (n - k);
                let b2 = b - (n - k);
                assert(ordered_upto(s, n)[a] == ordered_upto(s, k)[a2]);
                assert(ordered_upto(s, n)[b] == ordered_upto(s, k)[b2]);
            } else if b >= n - k {
                let b2 = b - (n - k);
                assert(ordered_upto(s, n)[a] == s[k + a]);
                assert(ordered_upto(s, n)[b] == ordered_upto(s, k)[b2]);
            } else {
                assert(ordered_upto(s, n)[a] == s[k + a]);
                assert(ordered_upto(s, n)[b] == s[k + b]);
            }
        }
    }
}

/// With pairwise distinct keys the ordered view is exactly the reverse of
/// the stored order, so the keys descend strictly.
pub proof fn lemma_ordered_distinct_reverse<T: Keyed>(s: Seq<T>, n: int)
    requires
        0 <= n <= s.len(),
        forall|i: int, j: int| 0 <= i < j < s.len() ==> #[trigger] s[i].key() != #[trigger] s[j].key(),
    ensures
        ordered_upto(s, n) =~= Seq::new(n as nat, |a: int| s[n - 1 - a]),
    decreases n,
{
    if n > 0 {
        assert(run_start(s, n - 1) == n - 1) by {
            if n - 1 > 0 {
                assert(s[n - 2].key() != s[n - 1].key());
            }
        }
        lemma_ordered_distinct_reverse(s, n - 1);
        lemma_ordered_len(s, n - 1);
    }
}

/// Filter a sequence, keeping order.
pub open spec fn filter_by<T>(s: Seq<T>, pred: spec_fn(T) -> bool) -> Seq<T>
    decreases s.len(),
{
    if s.len() == 0 {
        Seq::empty()
    } else if pred(s.last()) {
        filter_by(s.drop_last(), pred) + seq![s.last()]
    } else {
        filter_by(s.drop_last(), pred)
    }
}

/// One step of filtering: extending the input by one row extends the
/// filtered view by that row when it matches.
pub proof fn lemma_filter_step<T>(s: Seq<T>, pred: spec_fn(T) -> bool, i: int)
    requires
        0 <= i < s.len(),
    ensures
        filter_by(s.subrange(0, i + 1), pred) == if pred(s[i]) {
            filter_by(s.subrange(0, i), pred) + seq![s[i]]
        } else {
            filter_by(s.subrange(0, i), pred)
        },
{
    let t = s.subrange(0, i + 1);
    assert(t.drop_last() =~= s.subrange(0, i));
    assert(t.last() == s[i]);
}

/// Every filtered row satisfies the predicate and comes from the input.
pub proof fn lemma_filter_source<T>(s: Seq<T>, pred: spec_fn(T) -> bool)
    ensures
        forall|a: int| 0 <= a < filter_by(s, pred).len()
            ==> pred(#[trigger] filter_by(s, pred)[a])
                && exists|j: int| 0 <= j < s.len() && filter_by(s, pred)[a] == s[j],
    decreases s.len(),
{
    if s.len() > 0 {
        lemma_filter_source(s.drop_last(), pred);
        assert forall|a: int| 0 <= a < filter_by(s, pred).len()
            implies pred(#[trigger] filter_by(s, pred)[a])
                && exists|j: int| 0 <= j < s.len() && filter_by(s, pred)[a] == s[j] by {
            let f = filter_by(s, pred);
            let fd = filter_by(s.drop_last(), pred);
            if a < fd.len() {
                assert(f[a] == fd[a]);
                let j = choose|j: int| 0 <= j < s.drop_last().len() && fd[a] == s.drop_last()[j];
                assert(s.drop_last()[j] == s[j]);
                assert(f[a] == s[j]);
            } else {
                assert(pred(s.last()));
                assert(f[a] == s.last());
                assert(f[a] == s[s.len() - 1]);
            }
        }
    }
}

/// Filtering never adds rows.
pub proof fn lemma_filter_len<T>(s: Seq<T>, pred: spec_fn(T) -> bool)
    ensures
        filter_by(s, pred).len() <= s.len(),
    decreases s.len(),
{
    if s.len() > 0 {
        lemma_filter_len(s.drop_last(), pred);
    }
}

/// A row that satisfies the predicate survives filtering.
pub proof fn lemma_filter_contains<T>(s: Seq<T>, pred: spec_fn(T) -> bool, j: int)
    requires
        0 <= j < s.len(),
        pred(s[j]),
    ensures
        filter_by(s, pred).contains(s[j]),
    decreases s.len(),
{
    if j == s.len() - 1 {
        let f = filter_by(s, pred);
        assert(f[f.len() - 1] == s.last());
    } else {
        lemma_filter_contains(s.drop_last(), pred, j);
        assert(s.drop_last()[j] == s[j]);
        let fd = filter_by(s.drop_last(), pred);
        let w = choose|w: int| 0 <= w < fd.len() && fd[w] == s[j];
        assert(filter_by(s, pred)[w] == s[j]);
    }
}

/// Filtering keeps keys nondecreasing.
pub proof fn lemma_filter_nondecreasing<T: Keyed>(s: Seq<T>, pred: spec_fn(T) -> bool)
    requires
        nondecreasing(s),
    ensures
        nondecreasing(filter_by(s, pred)),
    decreases s.len(),
{
    if s.len() > 0 {
        assert(nondecreasing(s.drop_last()));
        lemma_filter_nondecreasing(s.drop_last(), pred);
        lemma_filter_source(s.drop_last(), pred);
        let f = filter_by(s, pred);
        let fd = filter_by(s.drop_last(), pred);
        assert forall|i: int, j: int| 0 <= i <= j < f.len()
            implies #[trigger] f[i].key() <= #[trigger] f[j].key() by {
            if j < fd.len() {
                assert(f[i] == fd[i] && f[j] == fd[j]);
            } else if i < fd.len() {
                assert(f[i] == fd[i]);
                assert(f[j] == s.last());
                let w = choose|w: int| 0 <= w < s.drop_last().len() && fd[i] == s.drop_last()[w];
                assert(s.drop_last()[w] == s[w]);
                assert(s[w].key() <= s[s.len() - 1].key());
            }
        }
    }
}

/// Filtering keeps keys pairwise distinct.
pub proof fn lemma_filter_distinct_keys<T: Keyed>(s: Seq<T>, pred: spec_fn(T) -> bool)
    requires
        forall|i: int, j: int| 0 <= i < j < s.len() ==> #[trigger] s[i].key() != #[trigger] s[j].key(),
    ensures
        forall|i: int, j: int| 0 <= i < j < filter_by(s, pred).len()
            ==> #[trigger] filter_by(s, pred)[i].key() != #[trigger] filter_by(s, pred)[j].key(),
    decreases s.len(),
{
    if s.len() > 0 {
        let d = s.drop_last();
        assert(forall|i: int, j: int| 0 <= i < j < d.len()
            ==> #[trigger] d[i].key() != #[trigger] d[j].key());
        lemma_filter_distinct_keys(d, pred);
        lemma_filter_source(d, pred);
        let f = filter_by(s, pred);
        let fd = filter_by(d, pred);
        assert forall|i: int, j: int| 0 <= i < j < f.len()
            implies #[trigger] f[i].key() != #[trigger] f[j].key() by {
            if j < fd.len() {
                assert(f[i] == fd[i] && f[j] == fd[j]);
            } else {
                assert(f[i] == fd[i]);
                assert(f[j] == s.last());
                let w = choose|w: int| 0 <= w < d.len() && fd[i] == d[w];
                assert(d[w] == s[w]);
                assert(s[w].key() != s[s.len() - 1].key());
            }
        }
    }
}

/// With nondecreasing, pairwise distinct keys, the ordered view descends
/// strictly.
pub proof fn lemma_ordered_strictly_descending<T: Keyed>(s: Seq<T>)
    requires
        nondecreasing(s),
        forall|i: int, j: int| 0 <= i < j < s.len() ==> #[trigger] s[i].key() != #[trigger] s[j].key(),
    ensures
        ordered(s).len() == s.len(),
        forall|a: int, b: int| 0 <= a < b < ordered(s).len()
            ==> #[trigger] ordered(s)[a].key() > #[trigger] ordered(s)[b].key(),
{
    let n = s.len() as int;
    lemma_ordered_distinct_reverse(s, n);
    lemma_ordered_len(s, n);
    assert forall|a: int, b: int| 0 <= a < b < ordered(s).len()
        implies #[trigger] ordered(s)[a].key() > #[trigger] ordered(s)[b].key() by {
        assert(ordered(s)[a] == s[n - 1 - a]);
        assert(ordered(s)[b] == s[n - 1 - b]);
        assert(s[n - 1 - b].key() <= s[n - 1 - a].key());
        assert(s[n - 1 - b].key() != s[n - 1 - a].key());
    }
}

/// The first `k` page windows of size `lim`, concatenated in order.
pub open spec fn concat_pages<T>(s: Seq<T>, lim: int, k: int) -> Seq<T>
    decreases k,
{
    if k <= 0 {
        Seq::empty()
    } else {
        concat_pages(s, lim, k - 1) + crate::paging::page_of(s, (k - 1) * lim, lim)
    }
}

/// Concatenating the first `k` pages yields the prefix they cover.
pub proof fn lemma_concat_pages_prefix<T>(s: Seq<T>, lim: int, k: int)
    requires
        lim > 0,
        k >= 0,
    ensures
        concat_pages(s, lim, k) == if k * lim <= s.len() as int {
            s.subrange(0, k * lim)
        } else {
            s.subrange(0, s.len() as int)
        },
    decreases k,
{
    if k == 0 {
        assert(concat_pages(s, lim, 0) =~= s.subrange(0, 0));
    } else {
        lemma_concat_pages_prefix(s, lim, k - 1);
        assert((k - 1) * lim == k * lim - lim) by (nonlinear_arith);
        assert(k * lim > 0) by (nonlinear_arith)
            requires k > 0 && lim > 0;
        let len = s.len() as int;
        let prev = (k - 1) * lim;
        if k * lim <= len {
            assert(concat_pages(s, lim, k)
                =~= s.subrange(0, prev) + s.subrange(prev, k * lim));
            assert(s.subrange(0, prev) + s.subrange(prev, k * lim)
                =~= s.subrange(0, k * lim));
        } else if prev <= len {
            assert(concat_pages(s, lim, k)
                =~= s.subrange(0, prev) + s.subrange(prev, len));
            assert(s.subrange(0, prev) + s.subrange(prev, len)
                =~= s.subrange(0, len));
        } else {
            assert(crate::paging::page_of(s, prev, lim) =~= Seq::<T>::empty());
            assert(concat_pages(s, lim, k) =~= s.subrange(0, len));
        }
    }
}

/// Once the page windows cover the whole sequence, their concatenation is
/// the sequence itself.
pub proof fn lemma_concat_pages_cover<T>(s: Seq<T>, lim: int, k: int)
    requires
        lim > 0,
        k >= 0,
        k * lim >= s.len(),
    ensures
        concat_pages(s, lim, k) == s,
{
    lemma_concat_pages_prefix(s, lim, k);
    if k * lim <= s.len() as int {
        assert(s.subrange(0, k * lim) =~= s);
    } else {
        assert(s.subrange(0, s.len() as int) =~= s);
    }
}

} // verus!
