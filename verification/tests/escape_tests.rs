use mandelbrot::complex::{Complex, SCALE};
use mandelbrot::escape::iterate;

#[test]
fn test_origin_never_diverges() {
    for m in [1usize, 2, 10, 1000] {
        let result = iterate(Complex::new(0, 0), m);
        assert!(!result.diverge);
        assert_eq!(result.iterations, m);
    }
}

#[test]
fn test_inner_point_never_diverges() {
    // A point well inside the main cardioid, roughly -0.1 + 0.1i.
    let c = Complex::new(-SCALE / 10, SCALE / 10);
    let result = iterate(c, 500);
    assert!(!result.diverge);
    assert_eq!(result.iterations, 500);
}

#[test]
fn test_far_point_diverges_at_step_one() {
    // |c| > 2: the first test sees z = 0, the second sees z = c.
    let c = Complex::new(3 * SCALE, 0);
    let result = iterate(c, 50);
    assert!(result.diverge);
    assert_eq!(result.iterations, 1);
}

#[test]
fn test_zero_budget_reports_no_divergence() {
    let c = Complex::new(3 * SCALE, 0);
    let result = iterate(c, 0);
    assert!(!result.diverge);
    assert_eq!(result.iterations, 0);
}

#[test]
fn test_monotonic_in_budget() {
    // 0.5 + 0i escapes quickly; a larger budget must report the same step.
    let c = Complex::new(SCALE / 2, 0);
    let small = iterate(c, 50);
    let large = iterate(c, 100);
    assert!(small.diverge);
    assert!(large.diverge);
    assert_eq!(small.iterations, large.iterations);
    assert_eq!(small.iterations, 5);
}

#[test]
fn test_iterate_is_idempotent() {
    let points = [
        Complex::new(0, 0),
        Complex::new(SCALE / 2, 0),
        Complex::new(-2 * SCALE, 0),
        Complex::new(3 * SCALE, -3 * SCALE),
    ];
    for c in points {
        let first = iterate(c, 75);
        let second = iterate(c, 75);
        assert_eq!(first, second);
    }
}

#[test]
fn test_boundary_point_within_radius_stays() {
    // c = -2 + 0i: the orbit is 0, -2, 2, 2, ... and the squared modulus
    // never exceeds 4, so the point never diverges.
    let c = Complex::new(-2 * SCALE, 0);
    let result = iterate(c, 1000);
    assert!(!result.diverge);
    assert_eq!(result.iterations, 1000);
}
