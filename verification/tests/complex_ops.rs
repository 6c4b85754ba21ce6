use buddhabrot::complex::{Complex, Hypot, Num};
use buddhabrot::fixed::Fixed;

fn fx(v: i32) -> Fixed {
    Fixed::from_int(v)
}

#[test]
fn new_keeps_parts() {
    let c = Complex::new(fx(3), fx(-4));
    assert_eq!(c.re, fx(3));
    assert_eq!(c.im, fx(-4));
}

#[test]
fn map_applies_to_both_parts() {
    let c = Complex::new(1u64, 2u64);
    let d = c.map(|x: u64| x + 10);
    assert_eq!(d.re, 11);
    assert_eq!(d.im, 12);
}

#[test]
fn zip_pairs_parts() {
    let c = Complex::new(1u64, 2u64);
    let d = Complex::new(3u64, 4u64);
    let z = c.zip(d);
    assert_eq!(z.re, (1, 3));
    assert_eq!(z.im, (2, 4));
}

#[test]
fn to_pair_and_from_pair_round_trip() {
    let c = Complex::from((fx(5), fx(6)));
    assert_eq!(c.re, fx(5));
    assert_eq!(c.im, fx(6));
    let (re, im) = c.to_pair();
    assert_eq!(re, fx(5));
    assert_eq!(im, fx(6));
}

#[test]
fn complex_add_sub() {
    let a = Complex::new(fx(1), fx(2));
    let b = Complex::new(fx(30), fx(-40));
    let s = a.add(b);
    assert_eq!(s, Complex::new(fx(31), fx(-38)));
    let d = s.sub(b);
    assert_eq!(d, a);
}

#[test]
fn complex_mul_exact() {
    // (1 + 2i)(3 + 4i) = -5 + 10i
    let a = Complex::new(fx(1), fx(2));
    let b = Complex::new(fx(3), fx(4));
    assert_eq!(a.mul(b), Complex::new(fx(-5), fx(10)));
}

#[test]
fn complex_div_exact() {
    // (1 + 0i) / (2 + 0i) = 0.5
    let a = Complex::new(fx(1), fx(0));
    let b = Complex::new(fx(2), fx(0));
    let q = a.div(b);
    assert_eq!(q.re.v, 32768);
    assert_eq!(q.im.v, 0);
}

#[test]
fn complex_real_ops() {
    let a = Complex::new(fx(4), fx(-8));
    assert_eq!(a.add_real(fx(1)), Complex::new(fx(5), fx(-7)));
    assert_eq!(a.sub_real(fx(1)), Complex::new(fx(3), fx(-9)));
    assert_eq!(a.mul_real(fx(2)), Complex::new(fx(8), fx(-16)));
    assert_eq!(a.div_real(fx(2)), Complex::new(fx(2), fx(-4)));
}

#[test]
fn abs_is_euclidean_magnitude() {
    // |3 + 4i| = 5, exactly representable
    let a = Complex::new(fx(3), fx(4));
    assert_eq!(a.abs(), fx(5));
    // |2 + 0i| = 2 exactly: the boundary case of the escape test
    let b = Complex::new(fx(2), fx(0));
    assert_eq!(b.abs(), fx(2));
}

#[test]
fn hypotenuse_rounds_down() {
    // |1 + 1i| = sqrt(2): floor(sqrt(2) * 65536) = 92681
    let m = fx(1).hypotenuse(fx(1));
    assert_eq!(m.v, 92681);
}
