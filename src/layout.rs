use vstd::prelude::*;
use crate::shape::{is_rectangular, is_square, rows_have_len, Matrix};

verus! {

/// Entry `(i, j)` of a matrix given as its rows.
pub open spec fn entry<T>(a: Seq<Vec<T>>, i: int, j: int) -> T {
    a[i]@[j]
}

/// `t` is the transpose of the `rows x cols` matrix `a`: `t` is `cols x rows`
/// and `t[i][j] == a[j][i]`.
pub open spec fn is_transpose_of<T>(t: Seq<Vec<T>>, a: Seq<Vec<T>>, rows: nat, cols: nat) -> bool {
    &&& t.len() == cols
    &&& rows_have_len(t, rows)
    &&& forall|i: int, j: int|
        0 <= i < cols && 0 <= j < rows ==> #[trigger] entry(t, i, j) == entry(a, j, i)
}

/// `m` is the `n x n` matrix with `one` on the diagonal and `zero` elsewhere.
pub open spec fn is_identity<T>(m: Seq<Vec<T>>, n: nat, zero: T, one: T) -> bool {
    &&& m.len() == n
    &&& rows_have_len(m, n)
    &&& forall|i: int, j: int|
        0 <= i < n && 0 <= j < n ==> #[trigger] entry(m, i, j) == if i == j {
            one
        } else {
            zero
        }
}

/// Transpose of a rectangular matrix: row `i` of the result is column `i` of
/// `a`.
pub fn transpose<T: Copy>(a: &Matrix<T>) -> (at: Matrix<T>)
    requires
        is_rectangular(a@),
    ensures
        is_transpose_of(at@, a@, a.len() as nat, a@[0]@.len()),
{
    let lines = a.len();
    let cols = a[0].len();
    let mut at: Matrix<T> = Vec::new();
    let mut i: usize = 0;
    while i < cols
        invariant
            is_rectangular(a@),
            lines == a.len(),
            cols == a@[0]@.len(),
            i <= cols,
            at.len() == i,
            rows_have_len(at@, lines as nat),
            forall|p: int, q: int|
                0 <= p < i && 0 <= q < lines ==> #[trigger] entry(at@, p, q) == entry(a@, q, p),
        decreases cols - i,
    {
        let mut row: Vec<T> = Vec::new();
        let mut j: usize = 0;
        while j < lines
            invariant
                is_rectangular(a@),
                lines == a.len(),
                cols == a@[0]@.len(),
                i < cols,
                at.len() == i,
                rows_have_len(at@, lines as nat),
                forall|p: int, q: int|
                    0 <= p < i && 0 <= q < lines ==> #[trigger] entry(at@, p, q) == entry(
                        a@,
                        q,
                        p,
                    ),
                j <= lines,
                row.len() == j,
                forall|q: int| 0 <= q < j ==> #[trigger] row@[q] == entry(a@, q, i as int),
            decreases lines - j,
        {
            assert(a@[j as int]@.len() == cols);
            row.push(a[j][i]);
            j = j + 1;
        }
        let ghost before = at@;
        let ghost new_row = row@;
        at.push(row);
        assert forall|p: int, q: int|
            0 <= p < i + 1 && 0 <= q < lines implies #[trigger] entry(at@, p, q) == entry(
            a@,
            q,
            p,
        ) by {
            if p < i {
                assert(at@[p] == before[p]);
                assert(entry(before, p, q) == entry(a@, q, p));
            } else {
                assert(at@[p]@ == new_row);
                assert(new_row[q] == entry(a@, q, i as int));
            }
        }
        i = i + 1;
    }
    at
}

/// The `n x n` identity matrix over the scalars `zero` and `one`.
pub fn get_identity_matrix<T: Copy>(n: usize, zero: T, one: T) -> (id: Matrix<T>)
    ensures
        is_identity(id@, n as nat, zero, one),
{
    let mut id: Matrix<T> = Vec::new();
    let mut i: usize = 0;
    while i < n
        invariant
            i <= n,
            id.len() == i,
            rows_have_len(id@, n as nat),
            forall|p: int, q: int|
                0 <= p < i && 0 <= q < n ==> #[trigger] entry(id@, p, q) == if p == q {
                    one
                } else {
                    zero
                },
        decreases n - i,
    {
        let mut row: Vec<T> = Vec::new();
        let mut j: usize = 0;
        while j < n
            invariant
                i < n,
                j <= n,
                row.len() == j,
                forall|q: int| 0 <= q < j ==> #[trigger] row@[q] == if q == i {
                    one
                } else {
                    zero
                },
            decreases n - j,
        {
            if j == i {
                row.push(one);
            } else {
                row.push(zero);
            }
            j = j + 1;
        }
        let ghost before = id@;
        let ghost new_row = row@;
        id.push(row);
        assert forall|p: int, q: int| 0 <= p < i + 1 && 0 <= q < n implies #[trigger] entry(
            id@,
            p,
            q,
        ) == if p == q {
            one
        } else {
            zero
        } by {
            if p < i {
                assert(id@[p] == before[p]);
                assert(entry(before, p, q) == if p == q {
                    one
                } else {
                    zero
                });
            } else {
                assert(id@[p]@ == new_row);
                assert(new_row[q] == if q == i {
                    one
                } else {
                    zero
                });
            }
        }
        i = i + 1;
    }
    id
}

/// The diagonal of a square matrix: `d[i] == a[i][i]`.
pub fn diagonal<T: Copy>(a: &Matrix<T>) -> (d: Vec<T>)
    requires
        is_square(a@, a.len() as nat),
    ensures
        d.len() == a.len(),
        forall|i: int| 0 <= i < a.len() ==> #[trigger] d@[i] == entry(a@, i, i),
{
    let n = a.len();
    let mut d: Vec<T> = Vec::new();
    let mut i: usize = 0;
    while i < n
        invariant
            is_square(a@, n as nat),
            i <= n,
            d.len() == i,
            forall|p: int| 0 <= p < i ==> #[trigger] d@[p] == entry(a@, p, p),
        decreases n - i,
    {
        assert(a@[i as int]@.len() == n);
        d.push(a[i][i]);
        i = i + 1;
    }
    d
}

/// `b` is `a` with the entries at `i` and `j` exchanged.
pub open spec fn swapped<T>(b: Seq<T>, a: Seq<T>, i: int, j: int) -> bool {
    b == a.update(i, a[j]).update(j, a[i])
}

/// Exchanges rows `i` and `j` of `a` together with entries `i` and `j` of the
/// right-hand side `b`; the system `a x = b` keeps its solutions.
pub fn swap_rows<T: Copy>(a: &mut Matrix<T>, b: &mut Vec<T>, i: usize, j: usize)
    requires
        i < old(a).len(),
        j < old(a).len(),
        old(b).len() == old(a).len(),
    ensures
        swapped(final(a)@, old(a)@, i as int, j as int),
        swapped(final(b)@, old(b)@, i as int, j as int),
{
    if i != j {
        let mut held: Vec<T> = Vec::new();
        std::mem::swap(&mut a[i], &mut held);
        std::mem::swap(&mut a[j], &mut held);
        std::mem::swap(&mut a[i], &mut held);
        let entry_i = b[i];
        b[i] = b[j];
        b[j] = entry_i;
    }
    assert(a@ =~= old(a)@.update(i as int, old(a)@[j as int]).update(j as int, old(a)@[i as int]));
    assert(b@ =~= old(b)@.update(i as int, old(b)@[j as int]).update(j as int, old(b)@[i as int]));
}

/// `l` and `r` are the strict lower and strict upper parts of the `n x n`
/// matrix `a`, with `zero` everywhere else, so that `a` is `l + d + r` for its
/// diagonal `d`.
pub open spec fn are_strict_parts<T>(l: Seq<Vec<T>>, r: Seq<Vec<T>>, a: Seq<Vec<T>>, n: nat, zero: T) -> bool {
    &&& l.len() == n
    &&& r.len() == n
    &&& rows_have_len(l, n)
    &&& rows_have_len(r, n)
    &&& forall|i: int, j: int|
        0 <= i < n && 0 <= j < n ==> #[trigger] entry(l, i, j) == if i > j {
            entry(a, i, j)
        } else {
            zero
        }
    &&& forall|i: int, j: int|
        0 <= i < n && 0 <= j < n ==> #[trigger] entry(r, i, j) == if i < j {
            entry(a, i, j)
        } else {
            zero
        }
}

/// Splits a square matrix into its strict lower part `L` and strict upper part
/// `R`. Applied to the row-normalized matrix `A*` (each row of `A` divided by
/// its diagonal entry) it gives the `L*` and `R*` of `A* = L* + I + R*`.
pub fn strict_parts<T: Copy>(a: &Matrix<T>, zero: T) -> (lr: (Matrix<T>, Matrix<T>))
    requires
        is_square(a@, a.len() as nat),
    ensures
        are_strict_parts(lr.0@, lr.1@, a@, a.len() as nat, zero),
{
    let n = a.len();
    let mut l: Matrix<T> = Vec::new();
    let mut r: Matrix<T> = Vec::new();
    let mut i: usize = 0;
    while i < n
        invariant
            is_square(a@, n as nat),
            i <= n,
            l.len() == i,
            r.len() == i,
            rows_have_len(l@, n as nat),
            rows_have_len(r@, n as nat),
            forall|p: int, q: int|
                0 <= p < i && 0 <= q < n ==> #[trigger] entry(l@, p, q) == if p > q {
                    entry(a@, p, q)
                } else {
                    zero
                },
            forall|p: int, q: int|
                0 <= p < i && 0 <= q < n ==> #[trigger] entry(r@, p, q) == if p < q {
                    entry(a@, p, q)
                } else {
                    zero
                },
        decreases n - i,
    {
        assert(a@[i as int]@.len() == n);
        let mut lower: Vec<T> = Vec::new();
        let mut upper: Vec<T> = Vec::new();
        let mut j: usize = 0;
        while j < n
            invariant
                is_square(a@, n as nat),
                i < n,
                a@[i as int]@.len() == n,
                j <= n,
                lower.len() == j,
                upper.len() == j,
                forall|q: int| 0 <= q < j ==> #[trigger] lower@[q] == if i > q {
                    entry(a@, i as int, q)
                } else {
                    zero
                },
                forall|q: int| 0 <= q < j ==> #[trigger] upper@[q] == if i < q {
                    entry(a@, i as int, q)
                } else {
                    zero
                },
            decreases n - j,
        {
            if i > j {
                lower.push(a[i][j]);
                upper.push(zero);
            } else if i < j {
                lower.push(zero);
                upper.push(a[i][j]);
            } else {
                lower.push(zero);
                upper.push(zero);
            }
            j = j + 1;
        }
        let ghost l_before = l@;
        let ghost r_before = r@;
        let ghost new_lower = lower@;
        let ghost new_upper = upper@;
        l.push(lower);
        r.push(upper);
        assert forall|p: int, q: int| 0 <= p < i + 1 && 0 <= q < n implies #[trigger] entry(
            l@,
            p,
            q,
        ) == if p > q {
            entry(a@, p, q)
        } else {
            zero
        } by {
            if p < i {
                assert(l@[p] == l_before[p]);
                assert(entry(l_before, p, q) == if p > q {
                    entry(a@, p, q)
                } else {
                    zero
                });
            } else {
                assert(l@[p]@ == new_lower);
                assert(new_lower[q] == if i > q {
                    entry(a@, i as int, q)
                } else {
                    zero
                });
            }
        }
        assert forall|p: int, q: int| 0 <= p < i + 1 && 0 <= q < n implies #[trigger] entry(
            r@,
            p,
            q,
        ) == if p < q {
            entry(a@, p, q)
        } else {
            zero
        } by {
            if p < i {
                assert(r@[p] == r_before[p]);
                assert(entry(r_before, p, q) == if p < q {
                    entry(a@, p, q)
                } else {
                    zero
                });
            } else {
                assert(r@[p]@ == new_upper);
                assert(new_upper[q] == if i < q {
                    entry(a@, i as int, q)
                } else {
                    zero
                });
            }
        }
        i = i + 1;
    }
    (l, r)
}

} // verus!
