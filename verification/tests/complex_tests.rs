use mandelbrot::complex::{Complex, SCALE};

#[test]
fn test_modulus() {
    let z = Complex::new(0, 0);
    let w = Complex::new(SCALE, SCALE);
    let v = Complex::new(-3 * SCALE, -4 * SCALE);

    assert_eq!(z.modulus(), 0);
    // floor(sqrt(2) * SCALE): the fixed-point modulus of 1 + 1i.
    assert_eq!(w.modulus(), 6074000999);
    assert_eq!(v.modulus(), 5 * SCALE);
}

#[test]
fn test_conjugate() {
    let z = Complex::new(SCALE, SCALE);
    let z_conjugate = Complex::new(SCALE, -SCALE);

    assert_eq!(z.conjugate(), z_conjugate);
}

#[test]
fn test_add() {
    let z = Complex::new(SCALE, 2 * SCALE);
    let w = Complex::new(2 * SCALE, -3 * SCALE);
    let z_plus_w = Complex::new(3 * SCALE, -SCALE);

    assert_eq!(z.add(w), z_plus_w);
}

#[test]
fn test_sub() {
    let z = Complex::new(SCALE, 2 * SCALE);
    let w = Complex::new(2 * SCALE, -3 * SCALE);
    let z_minus_w = Complex::new(-SCALE, 5 * SCALE);

    assert_eq!(z.sub(w), z_minus_w);
}

#[test]
fn test_mul() {
    let z = Complex::new(SCALE, SCALE);
    let w = Complex::new(0, SCALE);
    let z_times_w = Complex::new(-SCALE, SCALE);

    assert_eq!(z.mul(w), z_times_w);
}

#[test]
fn test_modulus_squared() {
    // |3 + 4i|^2 = 25, in units of SCALE * SCALE.
    let v = Complex::new(3 * SCALE, 4 * SCALE);
    assert_eq!(v.modulus_squared(), 25 * (SCALE as i128) * (SCALE as i128));
    assert_eq!(Complex::new(0, 0).modulus_squared(), 0);
}

#[test]
fn test_accessors() {
    let z = Complex::new(17, -42);
    assert_eq!(z.re(), 17);
    assert_eq!(z.im(), -42);
}
