//! Decisions of the bracketing root finders, taken on the signs of function
//! values.
use vstd::prelude::*;

verus! {

/// The sign of a function value.
#[derive(Clone, Copy, Debug, PartialEq, Eq, Structural)]
pub enum Sign {
    Negative,
    Zero,
    Positive,
}

/// The sign as an integer: -1, 0 or 1.
pub open spec fn sign_value(s: Sign) -> int {
    match s {
        Sign::Negative => -1,
        Sign::Zero => 0,
        Sign::Positive => 1,
    }
}

/// Sign of the product `x * y` of two values with signs `a` and `b`, found
/// without forming the product (which may underflow to zero).
pub fn product_sign(a: Sign, b: Sign) -> (r: Sign)
    ensures
        sign_value(r) == sign_value(a) * sign_value(b),
{
    match (a, b) {
        (Sign::Zero, _) | (_, Sign::Zero) => Sign::Zero,
        (Sign::Negative, Sign::Negative) | (Sign::Positive, Sign::Positive) => Sign::Positive,
        _ => Sign::Negative,
    }
}

/// How an interval `[a, b]` stands with respect to a root of `f`.
#[derive(Clone, Copy, Debug, PartialEq, Eq, Structural)]
pub enum Bracket {
    /// `f(a) == 0`: `a` is a root.
    RootAtLeft,
    /// `f(a) != 0` and `f(b) == 0`: `b` is a root.
    RootAtRight,
    /// `f(a) < 0 < f(b)`: the interval brackets a root as it stands.
    Ascending,
    /// `f(a) > 0 > f(b)`: the interval brackets a root once its ends are
    /// exchanged.
    Descending,
    /// `f(a)` and `f(b)` are non-zero and of one sign: no root is bracketed.
    NoSignChange,
}

/// Classifies the interval `[a, b]` from the signs of `f(a)` and `f(b)`.
pub fn check_bracket(fa: Sign, fb: Sign) -> (r: Bracket)
    ensures
        r == Bracket::RootAtLeft <==> fa == Sign::Zero,
        r == Bracket::RootAtRight <==> fa != Sign::Zero && fb == Sign::Zero,
        r == Bracket::Ascending <==> fa == Sign::Negative && fb == Sign::Positive,
        r == Bracket::Descending <==> fa == Sign::Positive && fb == Sign::Negative,
        r == Bracket::NoSignChange <==> sign_value(fa) * sign_value(fb) > 0,
{
    match (fa, fb) {
        (Sign::Zero, _) => Bracket::RootAtLeft,
        (_, Sign::Zero) => Bracket::RootAtRight,
        (Sign::Negative, Sign::Positive) => Bracket::Ascending,
        (Sign::Positive, Sign::Negative) => Bracket::Descending,
        _ => Bracket::NoSignChange,
    }
}

/// End of an interval.
#[derive(Clone, Copy, Debug, PartialEq, Eq, Structural)]
pub enum End {
    Left,
    Right,
}

/// The signs at the ends of an interval after the new point, of sign `c`,
/// replaces end `e`.
pub open spec fn signs_after(e: End, left: Sign, right: Sign, c: Sign) -> (Sign, Sign) {
    match e {
        End::Left => (c, right),
        End::Right => (left, c),
    }
}

/// The end that bisection replaces by the midpoint, given the sign of `f` there.
pub open spec fn bisection_end(fc: Sign) -> End {
    if fc == Sign::Negative {
        End::Left
    } else {
        End::Right
    }
}

/// The end that regula falsi replaces by the new point, given the signs of
/// `f` there and at the right end.
pub open spec fn regula_falsi_end(fc: Sign, f_right: Sign) -> End {
    if sign_value(fc) * sign_value(f_right) < 0 {
        End::Left
    } else {
        End::Right
    }
}

/// Bisection of an interval with `f(left) < 0 <= f(right)`: the end that the
/// midpoint `c` replaces. A negative `f(c)` replaces the left end, any other
/// the right one.
pub fn bisection_replaces(fc: Sign) -> (e: End)
    ensures
        e == bisection_end(fc),
        e == End::Left <==> fc == Sign::Negative,
{
    match fc {
        Sign::Negative => End::Left,
        _ => End::Right,
    }
}

/// Regula falsi: the end that the new point `c` replaces, given the signs of
/// `f(c)` and `f(right)`. When they differ strictly the root lies between `c`
/// and the right end, so `c` replaces the left end; otherwise it replaces the
/// right end.
pub fn regula_falsi_replaces(fc: Sign, f_right: Sign) -> (e: End)
    ensures
        e == regula_falsi_end(fc, f_right),
        e == End::Left <==> sign_value(fc) * sign_value(f_right) < 0,
{
    match product_sign(fc, f_right) {
        Sign::Negative => End::Left,
        _ => End::Right,
    }
}

/// Bisection keeps its bracket: from `f(left) < 0 <= f(right)`, replacing the
/// end that `bisection_end` names by the midpoint leaves
/// `f(left) < 0 <= f(right)`.
pub proof fn lemma_bisection_keeps_bracket(left: Sign, right: Sign, c: Sign)
    requires
        sign_value(left) < 0,
        sign_value(right) >= 0,
    ensures
        sign_value(signs_after(bisection_end(c), left, right, c).0) < 0,
        sign_value(signs_after(bisection_end(c), left, right, c).1) >= 0,
{
}

/// Regula falsi keeps its bracket: when `f(left)` and `f(right)` have strictly
/// opposite signs, after replacing the end that `regula_falsi_end` names by the
/// new point the two ends' values have opposite signs or one is zero.
pub proof fn lemma_regula_falsi_keeps_bracket(left: Sign, right: Sign, c: Sign)
    requires
        sign_value(left) * sign_value(right) < 0,
    ensures
        ({
            let (l, r) = signs_after(regula_falsi_end(c, right), left, right, c);
            sign_value(l) * sign_value(r) <= 0
        }),
{
}

} // verus!
