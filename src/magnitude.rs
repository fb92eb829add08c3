//! Choices made by comparing magnitudes.
//!
//! A magnitude is handed over as a key: an unsigned integer whose order is the
//! order of the magnitudes it stands for (for a non-negative double, its bit
//! pattern has that property).
use vstd::prelude::*;
use crate::layout::{entry, swap_rows, swapped};
use crate::shape::{is_square, Matrix};

verus! {

/// The largest entry of `s` (zero for an empty sequence).
pub open spec fn max_of(s: Seq<u64>) -> u64
    decreases s.len(),
{
    if s.len() == 0 {
        0
    } else if s.len() == 1 {
        s[0]
    } else {
        let m = max_of(s.drop_last());
        if s.last() > m {
            s.last()
        } else {
            m
        }
    }
}

/// `m` is an entry of `s` and no entry of `s` exceeds it.
pub open spec fn is_max_of(m: u64, s: Seq<u64>) -> bool {
    s.contains(m) && forall|i: int| 0 <= i < s.len() ==> #[trigger] s[i] <= m
}

/// `max_of` is the largest entry of a non-empty sequence.
pub proof fn lemma_max_of_is_max(s: Seq<u64>)
    requires
        s.len() >= 1,
    ensures
        is_max_of(max_of(s), s),
    decreases s.len(),
{
    if s.len() == 1 {
        assert(s[0] == max_of(s));
    } else {
        let init = s.drop_last();
        lemma_max_of_is_max(init);
        let k = choose|k: int| 0 <= k < init.len() && init[k] == max_of(init);
        if s.last() > max_of(init) {
            assert(s[s.len() - 1] == max_of(s));
        } else {
            assert(s[k] == max_of(s));
        }
        assert forall|i: int| 0 <= i < s.len() implies #[trigger] s[i] <= max_of(s) by {
            if i < s.len() - 1 {
                assert(s[i] == init[i]);
            }
        }
    }
}

/// Two sequences with the same largest entry have the same `max_of`.
proof fn lemma_max_of_unique(s: Seq<u64>, m: u64)
    requires
        s.len() >= 1,
        is_max_of(m, s),
    ensures
        max_of(s) == m,
{
    lemma_max_of_is_max(s);
    let k = choose|k: int| 0 <= k < s.len() && s[k] == m;
    let j = choose|j: int| 0 <= j < s.len() && s[j] == max_of(s);
    assert(s[k] <= max_of(s));
    assert(s[j] <= m);
}

/// The largest magnitude does not depend on the order of the entries: for a
/// matrix whose rows are permuted, the row sums are permuted alike and the
/// infinity norm stays the same.
pub proof fn lemma_max_of_permutation(s: Seq<u64>, t: Seq<u64>)
    requires
        s.to_multiset() =~= t.to_multiset(),
    ensures
        max_of(s) == max_of(t),
{
    s.to_multiset_ensures();
    t.to_multiset_ensures();
    if s.len() >= 1 {
        lemma_max_of_is_max(s);
        assert(s.to_multiset().count(max_of(s)) > 0);
        assert(t.to_multiset().count(max_of(s)) > 0);
        assert(t.contains(max_of(s)));
        assert forall|i: int| 0 <= i < t.len() implies #[trigger] t[i] <= max_of(s) by {
            assert(t.contains(t[i]));
            assert(t.to_multiset().count(t[i]) > 0);
            assert(s.to_multiset().count(t[i]) > 0);
            assert(s.contains(t[i]));
        }
        lemma_max_of_unique(t, max_of(s));
    } else {
        assert(t.len() == 0);
    }
}

/// Largest of a non-empty list of magnitude keys: the vector infinity norm
/// over the keys of `|v[i]|`, the matrix infinity norm over the keys of the
/// row sums `sum_j |a[i][j]|`.
pub fn max_key(keys: &Vec<u64>) -> (m: u64)
    requires
        keys.len() >= 1,
    ensures
        m == max_of(keys@),
        is_max_of(m, keys@),
{
    let mut m = keys[0];
    let mut i: usize = 1;
    assert(keys@.subrange(0, 1).drop_last() =~= Seq::<u64>::empty());
    while i < keys.len()
        invariant
            1 <= i <= keys.len(),
            m == max_of(keys@.subrange(0, i as int)),
        decreases keys.len() - i,
    {
        assert(keys@.subrange(0, i + 1).drop_last() =~= keys@.subrange(0, i as int));
        if keys[i] > m {
            m = keys[i];
        }
        i = i + 1;
    }
    assert(keys@.subrange(0, i as int) =~= keys@);
    proof {
        lemma_max_of_is_max(keys@);
    }
    m
}

/// `r` is the first row among `k..keys.len()` whose key is largest.
pub open spec fn is_best_pivot(keys: Seq<u64>, k: int, r: int) -> bool {
    &&& k <= r < keys.len()
    &&& forall|i: int| k <= i < keys.len() ==> #[trigger] keys[i] <= keys[r]
    &&& forall|i: int| k <= i < r ==> #[trigger] keys[i] < keys[r]
}

/// Row holding the pivot of column `k`: among rows `k..n`, the first whose
/// key (the magnitude of its entry in column `k`) is largest.
pub fn best_pivot_row(keys: &Vec<u64>, k: usize) -> (r: usize)
    requires
        k < keys.len(),
    ensures
        is_best_pivot(keys@, k as int, r as int),
{
    let mut best = k;
    let mut line = k + 1;
    while line < keys.len()
        invariant
            k < keys.len(),
            k < line <= keys.len(),
            k <= best < line,
            forall|i: int| k <= i < line ==> #[trigger] keys@[i] <= keys@[best as int],
            forall|i: int| k <= i < best ==> #[trigger] keys@[i] < keys@[best as int],
        decreases keys.len() - line,
    {
        if keys[line] > keys[best] {
            best = line;
        }
        line = line + 1;
    }
    best
}

/// Partial pivoting for column `k` of the system `a x = b`: moves the row whose
/// entry in column `k` has the largest magnitude (the first such among rows
/// `k..n`, by `keys`) to row `k`, together with its right-hand side entry, and
/// returns the row it came from.
pub fn choose_best_pivot<T: Copy>(a: &mut Matrix<T>, b: &mut Vec<T>, k: usize, keys: &Vec<u64>) -> (r: usize)
    requires
        k < old(a).len(),
        old(b).len() == old(a).len(),
        keys.len() == old(a).len(),
    ensures
        is_best_pivot(keys@, k as int, r as int),
        swapped(final(a)@, old(a)@, k as int, r as int),
        swapped(final(b)@, old(b)@, k as int, r as int),
{
    let r = best_pivot_row(keys, k);
    swap_rows(a, b, k, r);
    r
}

/// `m` is the largest entry strictly below the diagonal of the `n x n`
/// matrix `keys`.
pub open spec fn is_max_below_diagonal(m: u64, keys: Seq<Vec<u64>>, n: int) -> bool {
    &&& exists|i: int, j: int| 0 <= j < i < n && #[trigger] entry(keys, i, j) == m
    &&& forall|i: int, j: int| 0 <= j < i < n ==> #[trigger] entry(keys, i, j) <= m
}

/// Largest key strictly below the diagonal: over the keys of `|a[i][j]|`, the
/// largest magnitude in the strict lower triangle of `a`.
pub fn max_key_below_diagonal(keys: &Matrix<u64>) -> (m: u64)
    requires
        is_square(keys@, keys.len() as nat),
        keys.len() >= 2,
    ensures
        is_max_below_diagonal(m, keys@, keys.len() as int),
{
    let n = keys.len();
    assert(keys@[1]@.len() == n);
    let mut m = keys[1][0];
    assert(entry(keys@, 1, 0) == m);
    let mut i: usize = 1;
    while i < n
        invariant
            is_square(keys@, n as nat),
            n == keys.len(),
            1 <= i <= n,
            exists|p: int, q: int| 0 <= q < p < n && #[trigger] entry(keys@, p, q) == m,
            forall|p: int, q: int| 0 <= q < p < i ==> #[trigger] entry(keys@, p, q) <= m,
        decreases n - i,
    {
        assert(keys@[i as int]@.len() == n);
        let mut j: usize = 0;
        while j < i
            invariant
                is_square(keys@, n as nat),
                n == keys.len(),
                1 <= i < n,
                j <= i,
                keys@[i as int]@.len() == n,
                exists|p: int, q: int| 0 <= q < p < n && #[trigger] entry(keys@, p, q) == m,
                forall|p: int, q: int|
                    0 <= q < p && (p < i || (p == i && q < j)) ==> #[trigger] entry(keys@, p, q)
                        <= m,
            decreases i - j,
        {
            if keys[i][j] > m {
                m = keys[i][j];
                assert(entry(keys@, i as int, j as int) == m);
            }
            j = j + 1;
        }
        i = i + 1;
    }
    m
}

} // verus!
