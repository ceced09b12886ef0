use lbfgsb::bounds::BoundKind;
use lbfgsb::problem::{projected_component, InvalidInput, LbfgsbProblem};

fn b(v: f64) -> u64 {
    v.to_bits()
}

fn bits(values: &[f64]) -> Vec<u64> {
    values.iter().map(|v| v.to_bits()).collect()
}

fn numbers(patterns: &[u64]) -> Vec<f64> {
    patterns.iter().map(|p| f64::from_bits(*p)).collect()
}

fn boxed(x: &[f64], bounds: &[(Option<f64>, Option<f64>)]) -> LbfgsbProblem {
    let mut problem = LbfgsbProblem::build(bits(x));
    let pairs: Vec<(Option<u64>, Option<u64>)> =
        bounds.iter().map(|(l, u)| (l.map(f64::to_bits), u.map(f64::to_bits))).collect();
    problem.set_bounds(&pairs);
    problem
}

#[test]
fn a_built_problem_has_no_bounds_and_zeros() {
    let problem = LbfgsbProblem::build(bits(&[3.0, -2.0, 7.5]));
    assert_eq!(problem.n(), 3);
    assert_eq!(numbers(problem.x()), vec![3.0, -2.0, 7.5]);
    assert_eq!(numbers(problem.gx()), vec![0.0, 0.0, 0.0]);
    assert_eq!(f64::from_bits(problem.fx()), 0.0);
    assert_eq!(numbers(problem.lower()), vec![0.0, 0.0, 0.0]);
    assert_eq!(numbers(problem.upper()), vec![0.0, 0.0, 0.0]);
    assert_eq!(problem.kinds(), &[BoundKind::Unbounded; 3]);
    assert_eq!(problem.nbd(), vec![0, 0, 0]);
    assert!(problem.is_unconstrained());
    assert!(!problem.is_boxed());
}

#[test]
fn a_problem_without_variables() {
    let problem = LbfgsbProblem::build(Vec::new());
    assert_eq!(problem.n(), 0);
    assert_eq!(problem.validate(), Err(InvalidInput::Empty));
    assert!(problem.is_unconstrained());
    assert!(problem.is_boxed());
    assert_eq!(problem.projected_gradient_norm(), 0);
    assert!(problem.nbd().is_empty());
}

#[test]
fn bounds_of_every_kind() {
    let problem = boxed(
        &[0.0, 0.0, 0.0, 0.0],
        &[(Some(1.0), Some(100.0)), (None, None), (Some(-4.0), None), (None, Some(9.0))],
    );
    assert_eq!(
        problem.kinds(),
        &[BoundKind::Both, BoundKind::Unbounded, BoundKind::LowerOnly, BoundKind::UpperOnly]
    );
    assert_eq!(problem.nbd(), vec![2, 0, 1, 3]);
    assert_eq!(numbers(problem.lower()), vec![1.0, 0.0, -4.0, 0.0]);
    assert_eq!(numbers(problem.upper()), vec![100.0, 0.0, 0.0, 9.0]);
    assert_eq!(numbers(problem.x()), vec![0.0; 4]);
    assert!(!problem.is_unconstrained());
    assert!(!problem.is_boxed());
    assert_eq!(problem.validate(), Ok(()));
}

#[test]
fn fewer_bounds_than_variables_leave_the_rest() {
    let mut problem = boxed(&[0.0, 0.0, 0.0], &[(Some(1.0), Some(2.0)), (Some(3.0), None), (None, Some(4.0))]);
    problem.set_bounds(&[(None, Some(b(8.0)))]);
    assert_eq!(problem.nbd(), vec![3, 1, 3]);
    // A bound that is not given keeps its old value, which means nothing now.
    assert_eq!(numbers(problem.lower()), vec![1.0, 3.0, 0.0]);
    assert_eq!(numbers(problem.upper()), vec![8.0, 0.0, 4.0]);
    problem.set_bounds(&[]);
    assert_eq!(problem.nbd(), vec![3, 1, 3]);
}

#[test]
fn infinite_bounds_are_no_bounds() {
    let problem = boxed(
        &[0.0, 0.0, 0.0],
        &[
            (Some(f64::NEG_INFINITY), Some(f64::INFINITY)),
            (Some(0.5), Some(f64::INFINITY)),
            (Some(f64::NAN), Some(2.0)),
        ],
    );
    assert_eq!(problem.nbd(), vec![0, 1, 3]);
    assert_eq!(numbers(problem.lower()), vec![0.0, 0.5, 0.0]);
    assert_eq!(numbers(problem.upper()), vec![0.0, 0.0, 2.0]);
}

#[test]
fn all_two_sided_is_boxed() {
    let problem = boxed(&[3.0, 3.0], &[(Some(1.0), Some(100.0)), (Some(-100.0), Some(100.0))]);
    assert!(problem.is_boxed());
    assert!(!problem.is_unconstrained());
}

#[test]
fn the_first_inverted_variable_is_reported() {
    let problem = boxed(
        &[0.0, 0.0, 0.0, 0.0],
        &[(Some(1.0), Some(1.0)), (Some(5.0), None), (Some(2.0), Some(1.0)), (Some(9.0), Some(-9.0))],
    );
    assert_eq!(problem.validate(), Err(InvalidInput::InvertedBounds(2)));
    let problem = boxed(&[0.0], &[(Some(0.0), Some(-0.0))]);
    assert_eq!(problem.validate(), Ok(()));
    let problem = boxed(&[0.0], &[(Some(1.0 + f64::EPSILON), Some(1.0))]);
    assert_eq!(problem.validate(), Err(InvalidInput::InvertedBounds(0)));
}

#[test]
fn projection_into_the_box() {
    let problem = boxed(
        &[0.0; 5],
        &[
            (Some(1.0), Some(100.0)),
            (Some(-100.0), Some(100.0)),
            (Some(0.0), None),
            (None, Some(0.0)),
            (None, None),
        ],
    );
    let p = bits(&[0.0, 250.0, -3.0, 3.0, 1e300]);
    assert!(!problem.is_feasible(&p));
    let q = problem.projected(&p);
    assert_eq!(numbers(&q), vec![1.0, 100.0, 0.0, 0.0, 1e300]);
    assert!(problem.is_feasible(&q));
    assert_eq!(problem.projected(&q), q);

    let inside = bits(&[3.0, 3.0, 3.0, -3.0, -3.0]);
    assert!(problem.is_feasible(&inside));
    assert_eq!(problem.projected(&inside), inside);

    let with_nan = bits(&[f64::NAN, f64::NAN, f64::NAN, f64::NAN, 2.0]);
    assert!(!problem.is_feasible(&with_nan));
    assert_eq!(numbers(&problem.projected(&with_nan)), vec![1.0, -100.0, 0.0, 0.0, 2.0]);
}

#[test]
fn a_point_of_another_length_is_not_feasible() {
    let problem = boxed(&[0.0, 0.0], &[(None, None), (None, None)]);
    assert!(problem.is_feasible(&bits(&[5.0, 6.0])));
    assert!(!problem.is_feasible(&bits(&[5.0])));
    assert!(!problem.is_feasible(&bits(&[5.0, 6.0, 7.0])));
}

#[test]
fn projecting_the_current_point() {
    let mut problem = boxed(&[0.0, 500.0], &[(Some(1.0), Some(100.0)), (Some(-100.0), Some(100.0))]);
    problem.project();
    assert_eq!(numbers(problem.x()), vec![1.0, 100.0]);
    assert_eq!(numbers(problem.gx()), vec![0.0, 0.0]);
    problem.project();
    assert_eq!(numbers(problem.x()), vec![1.0, 100.0]);
}

#[test]
fn without_bounds_projection_moves_nothing() {
    let problem = LbfgsbProblem::build(bits(&[0.0, 0.0, 0.0]));
    let p = bits(&[-1e300, f64::INFINITY, f64::NAN]);
    assert_eq!(problem.projected(&p), p);
}

#[test]
fn replacing_the_iterate() {
    let mut problem = boxed(&[3.0, 3.0], &[(Some(1.0), Some(100.0)), (None, None)]);
    problem.set_iterate(bits(&[2.0, -7.0]), b(12.5), bits(&[0.25, -0.5]));
    assert_eq!(numbers(problem.x()), vec![2.0, -7.0]);
    assert_eq!(f64::from_bits(problem.fx()), 12.5);
    assert_eq!(numbers(problem.gx()), vec![0.25, -0.5]);
    assert_eq!(problem.nbd(), vec![2, 0]);
    assert_eq!(numbers(problem.lower()), vec![1.0, 0.0]);
}

#[test]
fn one_component_of_the_projected_gradient() {
    let (lo, hi) = (b(1.0), b(100.0));
    // In the interior the gradient counts as it is.
    assert_eq!(f64::from_bits(projected_component(BoundKind::Both, lo, hi, b(3.0), b(-7.0))), 7.0);
    assert_eq!(f64::from_bits(projected_component(BoundKind::Both, lo, hi, b(3.0), b(7.0))), 7.0);
    // At the lower bound a positive gradient pushes the descent out of the box.
    assert_eq!(f64::from_bits(projected_component(BoundKind::Both, lo, hi, b(1.0), b(7.0))), 0.0);
    assert_eq!(f64::from_bits(projected_component(BoundKind::Both, lo, hi, b(1.0), b(-7.0))), 7.0);
    // At the upper bound a negative gradient does.
    assert_eq!(f64::from_bits(projected_component(BoundKind::Both, lo, hi, b(100.0), b(-7.0))), 0.0);
    assert_eq!(f64::from_bits(projected_component(BoundKind::Both, lo, hi, b(100.0), b(7.0))), 7.0);
    // A bound that the kind does not have pins nothing.
    assert_eq!(f64::from_bits(projected_component(BoundKind::UpperOnly, lo, hi, b(1.0), b(7.0))), 7.0);
    assert_eq!(f64::from_bits(projected_component(BoundKind::LowerOnly, lo, hi, b(100.0), b(-7.0))), 7.0);
    assert_eq!(f64::from_bits(projected_component(BoundKind::Unbounded, lo, hi, b(1.0), b(7.0))), 7.0);
    assert_eq!(f64::from_bits(projected_component(BoundKind::Both, lo, hi, b(1.0), b(0.0))), 0.0);
}

#[test]
fn the_norm_of_the_projected_gradient() {
    let mut problem = boxed(
        &[0.0; 4],
        &[(Some(1.0), Some(100.0)), (Some(-100.0), Some(100.0)), (None, None), (Some(0.0), None)],
    );
    // Variable 0 sits at its lower bound with a positive gradient, variable 1 at
    // its upper bound with a negative one: neither counts.
    problem.set_iterate(bits(&[1.0, 100.0, 5.0, 2.0]), b(1.0), bits(&[50.0, -60.0, -0.25, 0.125]));
    assert_eq!(f64::from_bits(problem.projected_gradient_norm()), 0.25);
    // Turned round, both count.
    problem.set_iterate(bits(&[1.0, 100.0, 5.0, 2.0]), b(1.0), bits(&[-50.0, 60.0, -0.25, 0.125]));
    assert_eq!(f64::from_bits(problem.projected_gradient_norm()), 60.0);
    problem.set_iterate(bits(&[1.0, 100.0, 5.0, 0.0]), b(1.0), bits(&[1.0, -1.0, 0.0, 3.0]));
    assert_eq!(f64::from_bits(problem.projected_gradient_norm()), 0.0);
}
