use buddhabrot::color::{Rgb, Scalar};
use buddhabrot::images::Image;
use buddhabrot::ops::{fuse, normalize_im, reflect_im, rotate_im};

fn scalar_image(width: usize, values: &[u64]) -> Image<Scalar> {
    let mut im = Image::<Scalar>::new(values.len(), width);
    for (k, v) in values.iter().enumerate() {
        im.set((k % width, k / width), Scalar::new(*v));
    }
    im
}

fn values(im: &Image<Scalar>) -> Vec<u64> {
    im.pixels().iter().map(|p| p.v).collect()
}

#[test]
fn normalize_divides_by_the_maximum() {
    let mut im = scalar_image(2, &[1, 2, 3, 4]);
    normalize_im(&mut im);
    assert_eq!(values(&im), vec![0, 0, 0, 1]);
}

#[test]
fn normalize_leaves_an_empty_histogram_alone() {
    let mut im = scalar_image(2, &[0, 0, 0, 0]);
    normalize_im(&mut im);
    assert_eq!(values(&im), vec![0, 0, 0, 0]);
}

#[test]
fn normalize_needs_every_channel_of_the_maximum() {
    // the green channel never exceeds zero, so there is nothing to scale by
    let mut im = Image::<Rgb>::new(2, 2);
    im.set((0, 0), Rgb::new(1, 0, 3));
    im.set((1, 0), Rgb::new(2, 0, 4));
    normalize_im(&mut im);
    assert_eq!(im.get((0, 0)), Rgb::new(1, 0, 3));
    assert_eq!(im.get((1, 0)), Rgb::new(2, 0, 4));
}

#[test]
fn reflect_accumulates_the_mirrored_row() {
    let mut im = scalar_image(2, &[1, 2, 3, 4]);
    reflect_im(&mut im);
    assert_eq!(values(&im), vec![4, 6, 4, 6]);
}

#[test]
fn reflect_on_odd_height_triples_the_first_half_of_the_middle_row() {
    let mut im = scalar_image(3, &[1, 2, 3, 4, 5, 6, 7, 8, 9]);
    reflect_im(&mut im);
    assert_eq!(values(&im), vec![8, 10, 12, 12, 5, 6, 8, 10, 12]);
}

#[test]
fn rotate_transposes_the_image() {
    let mut im = scalar_image(3, &[1, 2, 3, 4, 5, 6, 7, 8, 9]);
    rotate_im(&mut im);
    assert_eq!(values(&im), vec![1, 4, 7, 2, 5, 8, 3, 6, 9]);
}

#[test]
fn rotate_twice_is_the_identity() {
    let original = vec![1, 2, 3, 4];
    let mut im = scalar_image(2, &original);
    rotate_im(&mut im);
    rotate_im(&mut im);
    assert_eq!(values(&im), original);
}

#[test]
fn fuse_places_each_pass_in_its_channel() {
    let r = scalar_image(2, &[1, 2, 3, 4]);
    let g = scalar_image(2, &[5, 6, 7, 8]);
    let b = scalar_image(2, &[9, 10, 11, 12]);
    let im = fuse(r, g, b);
    assert_eq!(im.get((0, 0)), Rgb::new(1, 5, 9));
    assert_eq!(im.get((1, 0)), Rgb::new(2, 6, 10));
    assert_eq!(im.get((0, 1)), Rgb::new(3, 7, 11));
    assert_eq!(im.get((1, 1)), Rgb::new(4, 8, 12));
}
