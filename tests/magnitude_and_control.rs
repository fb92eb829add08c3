use numerics::iteration::{Iteration, Step, ITERATIVE_SOLVER_CAP, REFINEMENT_CAP};
use numerics::magnitude::{best_pivot_row, choose_best_pivot, max_key, max_key_below_diagonal};
use numerics::roots::{
    bisection_replaces, check_bracket, product_sign, regula_falsi_replaces, Bracket, End, Sign,
};

fn key(x: f64) -> u64 {
    x.abs().to_bits()
}

fn column_keys(a: &Vec<Vec<f64>>, k: usize) -> Vec<u64> {
    a.iter().map(|row| key(row[k])).collect()
}

fn row_sum_keys(a: &Vec<Vec<f64>>) -> Vec<u64> {
    a.iter().map(|row| row.iter().map(|x| x.abs()).sum::<f64>().to_bits()).collect()
}

#[test]
fn best_pivot_takes_largest_magnitude() {
    let a = vec![vec![1.0, 3.0, 9.0], vec![-4.0, 1.0, 3.0], vec![2.0, 1.0, 1.0]];
    assert_eq!(best_pivot_row(&column_keys(&a, 0), 0), 1);
    assert_eq!(best_pivot_row(&column_keys(&a, 1), 1), 1);
    assert_eq!(best_pivot_row(&column_keys(&a, 2), 2), 2);
}

#[test]
fn best_pivot_keeps_first_of_equal_magnitudes() {
    let a = vec![vec![1.0], vec![-3.0], vec![3.0]];
    assert_eq!(best_pivot_row(&column_keys(&a, 0), 0), 1);
    assert_eq!(best_pivot_row(&vec![7, 7, 7], 0), 0);
}

#[test]
fn choose_best_pivot_swaps_rows_and_rhs() {
    let mut a = vec![vec![1.0, 2.0, 3.0], vec![4.0, 5.0, 6.0], vec![-7.0, 8.0, 10.0]];
    let mut b = vec![1.0, 2.0, 3.0];
    let keys = column_keys(&a, 0);
    let r = choose_best_pivot(&mut a, &mut b, 0, &keys);
    assert_eq!(r, 2);
    assert_eq!(a, vec![vec![-7.0, 8.0, 10.0], vec![4.0, 5.0, 6.0], vec![1.0, 2.0, 3.0]]);
    assert_eq!(b, vec![3.0, 2.0, 1.0]);
}

#[test]
fn choose_best_pivot_leaves_rows_when_pivot_in_place() {
    let mut a = vec![vec![5.0, 2.0], vec![3.0, 1.0]];
    let mut b = vec![0.0, -7.0];
    let keys = column_keys(&a, 0);
    assert_eq!(choose_best_pivot(&mut a, &mut b, 0, &keys), 0);
    assert_eq!(a, vec![vec![5.0, 2.0], vec![3.0, 1.0]]);
    assert_eq!(b, vec![0.0, -7.0]);
}

#[test]
fn max_key_gives_infinity_norm() {
    let a = vec![vec![1.0, -1.0, 2.0], vec![0.0, 3.0, 1.0], vec![0.0, 0.0, 1.0]];
    let norm = f64::from_bits(max_key(&row_sum_keys(&a)));
    assert_eq!(norm, 4.0);
    let v = vec![-2.5, 1.0, 2.0];
    let keys: Vec<u64> = v.iter().map(|x| key(*x)).collect();
    assert_eq!(f64::from_bits(max_key(&keys)), 2.5);
}

#[test]
fn infinity_norm_unchanged_by_row_permutation() {
    let a = vec![vec![5.0, 1.0, 1.0], vec![3.0, 4.0, 1.0], vec![3.0, 3.0, 6.0]];
    let permuted = vec![a[2].clone(), a[0].clone(), a[1].clone()];
    let m1 = max_key(&row_sum_keys(&a));
    let m2 = max_key(&row_sum_keys(&permuted));
    assert_eq!(m1, m2);
    assert_eq!(f64::from_bits(m1), 12.0);
}

#[test]
fn max_below_diagonal_ignores_upper_part() {
    let a = vec![vec![9.0, 100.0, 50.0], vec![-0.5, 2.0, 70.0], vec![0.25, 1e-7, 1.0]];
    let keys: Vec<Vec<u64>> = a.iter().map(|r| r.iter().map(|x| key(*x)).collect()).collect();
    assert_eq!(f64::from_bits(max_key_below_diagonal(&keys)), 0.5);
}

#[test]
fn iteration_converges_before_cap() {
    let mut it = Iteration::new(REFINEMENT_CAP);
    assert!(it.may_run());
    assert_eq!(it.record(false), Step::Continue);
    assert_eq!(it.record(true), Step::Converged);
    assert_eq!(it.done, 2);
}

#[test]
fn iteration_exhausts_at_cap() {
    let mut it = Iteration::new(3);
    assert_eq!(it.record(false), Step::Continue);
    assert_eq!(it.record(false), Step::Continue);
    assert_eq!(it.record(false), Step::Exhausted);
    assert!(!it.may_run());
    let mut last = Iteration::new(1);
    assert_eq!(last.record(true), Step::Converged);
    assert_eq!(ITERATIVE_SOLVER_CAP, 10000);
}

#[test]
fn signs_of_products() {
    assert_eq!(product_sign(Sign::Negative, Sign::Negative), Sign::Positive);
    assert_eq!(product_sign(Sign::Negative, Sign::Positive), Sign::Negative);
    assert_eq!(product_sign(Sign::Positive, Sign::Zero), Sign::Zero);
}

#[test]
fn brackets_from_endpoint_signs() {
    assert_eq!(check_bracket(Sign::Negative, Sign::Positive), Bracket::Ascending);
    assert_eq!(check_bracket(Sign::Positive, Sign::Negative), Bracket::Descending);
    assert_eq!(check_bracket(Sign::Positive, Sign::Positive), Bracket::NoSignChange);
    assert_eq!(check_bracket(Sign::Negative, Sign::Negative), Bracket::NoSignChange);
    assert_eq!(check_bracket(Sign::Zero, Sign::Positive), Bracket::RootAtLeft);
    assert_eq!(check_bracket(Sign::Negative, Sign::Zero), Bracket::RootAtRight);
}

#[test]
fn bisection_and_regula_falsi_updates() {
    assert_eq!(bisection_replaces(Sign::Negative), End::Left);
    assert_eq!(bisection_replaces(Sign::Zero), End::Right);
    assert_eq!(bisection_replaces(Sign::Positive), End::Right);
    assert_eq!(regula_falsi_replaces(Sign::Negative, Sign::Positive), End::Left);
    assert_eq!(regula_falsi_replaces(Sign::Positive, Sign::Positive), End::Right);
    assert_eq!(regula_falsi_replaces(Sign::Zero, Sign::Positive), End::Right);
}
