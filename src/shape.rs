use vstd::prelude::*;

verus! {

/// A dense matrix stored row by row.
pub type Matrix<T> = Vec<Vec<T>>;

/// Why a matrix or vector does not have the shape an operation needs.
#[derive(Clone, Copy, Debug, PartialEq, Eq, Structural)]
pub enum ShapeError {
    /// The matrix has no rows, or the vector no components.
    Empty,
    /// A row's length differs from what the shape calls for.
    RaggedRows,
    /// Two operands' dimensions do not agree.
    LengthMismatch,
}

/// Every row of `a` has exactly `cols` entries.
pub open spec fn rows_have_len<T>(a: Seq<Vec<T>>, cols: nat) -> bool {
    forall|i: int| 0 <= i < a.len() ==> (#[trigger] a[i])@.len() == cols
}

/// `a` is a non-empty `n x n` matrix.
pub open spec fn is_square<T>(a: Seq<Vec<T>>, n: nat) -> bool {
    n >= 1 && a.len() == n && rows_have_len(a, n)
}

/// `a` has at least one row, and every row has the length of the first one,
/// which is at least one.
pub open spec fn is_rectangular<T>(a: Seq<Vec<T>>) -> bool {
    a.len() >= 1 && a[0]@.len() >= 1 && rows_have_len(a, a[0]@.len())
}

/// Checks that every row of `a` has `cols` entries; returns the first row that
/// does not, if any.
fn first_row_not_of_len<T>(a: &Matrix<T>, cols: usize) -> (r: Option<usize>)
    ensures
        r is None <==> rows_have_len(a@, cols as nat),
        r matches Some(i) ==> i < a.len() && a@[i as int]@.len() != cols,
{
    let mut i: usize = 0;
    while i < a.len()
        invariant
            i <= a.len(),
            forall|k: int| 0 <= k < i ==> (#[trigger] a@[k])@.len() == cols,
        decreases a.len() - i,
    {
        if a[i].len() != cols {
            return Some(i);
        }
        i = i + 1;
    }
    None
}

/// Order of a square matrix: `Ok(n)` when `a` is a non-empty `n x n` matrix.
pub fn square_order<T>(a: &Matrix<T>) -> (r: Result<usize, ShapeError>)
    ensures
        r is Ok <==> is_square(a@, a.len() as nat),
        r matches Ok(n) ==> n == a.len(),
        r == Err::<usize, ShapeError>(ShapeError::Empty) <==> a.len() == 0,
        r == Err::<usize, ShapeError>(ShapeError::RaggedRows) <==> (a.len() >= 1
            && !rows_have_len(a@, a.len() as nat)),
{
    let n = a.len();
    if n == 0 {
        return Err(ShapeError::Empty);
    }
    match first_row_not_of_len(a, n) {
        None => Ok(n),
        Some(_) => Err(ShapeError::RaggedRows),
    }
}

/// Order of a square linear system `a x = b`: `Ok(n)` when `a` is a
/// non-empty `n x n` matrix and `b` has `n` components.
pub fn system_order<T>(a: &Matrix<T>, b: &Vec<T>) -> (r: Result<usize, ShapeError>)
    ensures
        r is Ok <==> is_square(a@, a.len() as nat) && b.len() == a.len(),
        r matches Ok(n) ==> n == a.len() && n == b.len(),
        r == Err::<usize, ShapeError>(ShapeError::Empty) <==> a.len() == 0,
        r == Err::<usize, ShapeError>(ShapeError::RaggedRows) <==> (a.len() >= 1
            && !rows_have_len(a@, a.len() as nat)),
        r == Err::<usize, ShapeError>(ShapeError::LengthMismatch) <==> (is_square(
            a@,
            a.len() as nat,
        ) && b.len() != a.len()),
{
    let n = square_order(a)?;
    if b.len() != n {
        return Err(ShapeError::LengthMismatch);
    }
    Ok(n)
}

/// Common length of two vectors combined component by component: `Ok(n)`
/// when both have the same length `n >= 1`.
pub fn common_length<T>(u: &Vec<T>, v: &Vec<T>) -> (r: Result<usize, ShapeError>)
    ensures
        r is Ok <==> u.len() >= 1 && u.len() == v.len(),
        r matches Ok(n) ==> n == u.len(),
        r == Err::<usize, ShapeError>(ShapeError::Empty) <==> u.len() == 0,
        r == Err::<usize, ShapeError>(ShapeError::LengthMismatch) <==> (u.len() >= 1
            && u.len() != v.len()),
{
    if u.len() == 0 {
        Err(ShapeError::Empty)
    } else if u.len() != v.len() {
        Err(ShapeError::LengthMismatch)
    } else {
        Ok(u.len())
    }
}

/// Dimensions of a rectangular matrix: `Ok((rows, cols))` when `a` has at
/// least one row, its first row at least one entry, and every row the length
/// of the first.
pub fn matrix_shape<T>(a: &Matrix<T>) -> (r: Result<(usize, usize), ShapeError>)
    ensures
        r is Ok <==> is_rectangular(a@),
        r matches Ok((m, n)) ==> m == a.len() && n == a@[0]@.len(),
        r == Err::<(usize, usize), ShapeError>(ShapeError::Empty) <==> (a.len() == 0
            || a@[0]@.len() == 0),
        r == Err::<(usize, usize), ShapeError>(ShapeError::RaggedRows) <==> (a.len() >= 1
            && a@[0]@.len() >= 1 && !rows_have_len(a@, a@[0]@.len())),
{
    if a.len() == 0 || a[0].len() == 0 {
        return Err(ShapeError::Empty);
    }
    let cols = a[0].len();
    match first_row_not_of_len(a, cols) {
        None => Ok((a.len(), cols)),
        Some(_) => Err(ShapeError::RaggedRows),
    }
}

/// Dimensions of the product `a b`: `Ok((m, p, q))` when `a` is an `m x p`
/// matrix and `b` a `p x q` matrix.
pub fn product_shape<T>(a: &Matrix<T>, b: &Matrix<T>) -> (r: Result<
    (usize, usize, usize),
    ShapeError,
>)
    ensures
        r is Ok <==> is_rectangular(a@) && is_rectangular(b@) && a@[0]@.len() == b.len(),
        r matches Ok((m, p, q)) ==> m == a.len() && p == b.len() && q == b@[0]@.len(),
        r == Err::<(usize, usize, usize), ShapeError>(ShapeError::LengthMismatch) <==> (
        is_rectangular(a@) && is_rectangular(b@) && a@[0]@.len() != b.len()),
        r == Err::<(usize, usize, usize), ShapeError>(ShapeError::Empty) <==> (a.len() == 0
            || a@[0]@.len() == 0 || (is_rectangular(a@) && (b.len() == 0 || b@[0]@.len()
            == 0))),
        r == Err::<(usize, usize, usize), ShapeError>(ShapeError::RaggedRows) <==> (
        !is_rectangular(a@) && a.len() >= 1 && a@[0]@.len() >= 1) || (is_rectangular(a@)
            && !is_rectangular(b@) && b.len() >= 1 && b@[0]@.len() >= 1),
{
    let (m, p) = matrix_shape(a)?;
    let (p2, q) = matrix_shape(b)?;
    if p != p2 {
        return Err(ShapeError::LengthMismatch);
    }
    Ok((m, p, q))
}

} // verus!
