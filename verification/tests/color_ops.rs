use buddhabrot::color::{Color, ColorChannel, Rgb, Rgba, Scalar};

#[test]
fn empty_is_all_zero() {
    assert_eq!(Scalar::empty(), Scalar::new(0));
    assert_eq!(Rgb::empty(), Rgb::new(0, 0, 0));
    assert_eq!(Rgba::empty(), Rgba::new(0, 0, 0, 0));
}

#[test]
fn add_is_elementwise() {
    let mut s = Scalar::new(2);
    s.add(Scalar::new(5));
    assert_eq!(s, Scalar::new(7));

    let mut c = Rgb::new(1, 2, 3);
    c.add(Rgb::new(10, 20, 30));
    assert_eq!(c, Rgb::new(11, 22, 33));

    let mut d = Rgba::new(1, 2, 3, 4);
    d.add(Rgba::new(10, 20, 30, 40));
    assert_eq!(d, Rgba::new(11, 22, 33, 44));
}

#[test]
fn add_saturates() {
    let mut s = Scalar::new(u64::MAX - 1);
    s.add(Scalar::new(5));
    assert_eq!(s, Scalar::new(u64::MAX));
}

#[test]
fn add_is_commutative_on_samples() {
    let samples = [0u64, 1, 7, u64::MAX - 2, u64::MAX];
    for &a in &samples {
        for &b in &samples {
            let mut x = Scalar::new(a);
            x.add(Scalar::new(b));
            let mut y = Scalar::new(b);
            y.add(Scalar::new(a));
            assert_eq!(x, y);
        }
    }
}

#[test]
fn add_is_associative_on_samples() {
    let samples = [0u64, 3, u64::MAX - 4, u64::MAX];
    for &a in &samples {
        for &b in &samples {
            for &c in &samples {
                let mut left = Rgb::new(a, b, c);
                left.add(Rgb::new(b, c, a));
                left.add(Rgb::new(c, a, b));

                let mut inner = Rgb::new(b, c, a);
                inner.add(Rgb::new(c, a, b));
                let mut right = Rgb::new(a, b, c);
                right.add(inner);

                assert_eq!(left, right);
            }
        }
    }
}

#[test]
fn empty_is_additive_identity() {
    let mut c = Rgba::new(9, 8, 7, 6);
    c.add(Rgba::empty());
    assert_eq!(c, Rgba::new(9, 8, 7, 6));
    let mut e = Rgba::empty();
    e.add(Rgba::new(9, 8, 7, 6));
    assert_eq!(e, Rgba::new(9, 8, 7, 6));
}

#[test]
fn max_is_elementwise() {
    assert_eq!(Scalar::new(3).max(Scalar::new(5)), Scalar::new(5));
    assert_eq!(Rgb::new(1, 9, 4).max(Rgb::new(2, 3, 4)), Rgb::new(2, 9, 4));
    assert_eq!(
        Rgba::new(1, 9, 4, 0).max(Rgba::new(2, 3, 4, 7)),
        Rgba::new(2, 9, 4, 7)
    );
}

#[test]
fn map_applies_per_channel() {
    assert_eq!(Scalar::new(3).map(|x| x * 2), Scalar::new(6));
    assert_eq!(Rgb::new(1, 2, 3).map(|x| x + 1), Rgb::new(2, 3, 4));
    assert_eq!(Rgba::new(1, 2, 3, 4).map(|x| x * x), Rgba::new(1, 4, 9, 16));
}

#[test]
fn one_lands_in_the_named_channel() {
    assert_eq!(Scalar::one(ColorChannel::Red), Scalar::new(1));
    assert_eq!(Scalar::one(ColorChannel::Alpha), Scalar::new(1));
    assert_eq!(Rgb::one(ColorChannel::Red), Rgb::new(1, 0, 0));
    assert_eq!(Rgb::one(ColorChannel::Green), Rgb::new(0, 1, 0));
    assert_eq!(Rgb::one(ColorChannel::Blue), Rgb::new(0, 0, 1));
    assert_eq!(Rgba::one(ColorChannel::Alpha), Rgba::new(0, 0, 0, 1));
}

#[test]
fn cdiv_divides_elementwise() {
    let mut s = Scalar::new(9);
    s.cdiv_assign(Scalar::new(2));
    assert_eq!(s, Scalar::new(4));

    let mut c = Rgb::new(8, 9, 10);
    c.cdiv_assign(Rgb::new(2, 3, 10));
    assert_eq!(c, Rgb::new(4, 3, 1));

    let mut d = Rgba::new(8, 9, 10, 12);
    d.cdiv_assign(Rgba::new(2, 3, 10, 4));
    assert_eq!(d, Rgba::new(4, 3, 1, 3));
}

#[test]
fn to_tuple_drops_alpha() {
    assert_eq!(Scalar::new(7).to_tuple(), (7, 7, 7));
    assert_eq!(Rgb::new(1, 2, 3).to_tuple(), (1, 2, 3));
    assert_eq!(Rgba::new(1, 2, 3, 4).to_tuple(), (1, 2, 3));
}

#[test]
fn nonzero_tests_every_channel() {
    assert!(Scalar::new(1).nonzero());
    assert!(!Scalar::new(0).nonzero());
    assert!(Rgb::new(1, 2, 3).nonzero());
    assert!(!Rgb::new(1, 0, 3).nonzero());
    assert!(Rgba::new(1, 2, 3, 4).nonzero());
    assert!(!Rgba::new(1, 2, 3, 0).nonzero());
}
