use buddhabrot::color::{ColorChannel, Rgb, Scalar};
use buddhabrot::complex::Complex;
use buddhabrot::fixed::Fixed;
use buddhabrot::images::Image;
use buddhabrot::sample::{
    accumulate_trajectory, is_inside, mandelbrot, map_to_pixel, merge_into, sample_trial,
    seed_coord, should_report, trials_per_worker,
};

fn fx(v: i32) -> Fixed {
    Fixed::from_int(v)
}

fn c(re: i32, im: i32) -> Complex<Fixed> {
    Complex::new(fx(re), fx(im))
}

#[test]
fn trajectory_of_escaping_seed_stops_before_the_escape() {
    // c = 1: orbit 1, 2, 5, ... — magnitude first exceeds 2 at step 2,
    // so exactly the 2 earlier points are recorded, the divergent one never.
    let t = mandelbrot(c(1, 0), 10);
    assert_eq!(t.len(), 2);
    assert_eq!(t[0], c(1, 0));
    assert_eq!(t[1], c(2, 0));
}

#[test]
fn seed_already_outside_contributes_nothing() {
    // |3| > 2 at step 0: the trajectory is the empty prefix.
    let t = mandelbrot(c(3, 0), 10);
    assert_eq!(t.len(), 0);
    let t2 = mandelbrot(c(2, 2), 10);
    assert_eq!(t2.len(), 0);
}

#[test]
fn bounded_seed_gives_empty_trajectory() {
    // c = 0 and c = -1 lie in the set: no escape within any bound.
    assert_eq!(mandelbrot(c(0, 0), 100).len(), 0);
    assert_eq!(mandelbrot(c(-1, 0), 100).len(), 0);
}

#[test]
fn trajectory_is_cut_by_the_step_bound() {
    // c = 1 escapes at step 2, but with n = 2 no escape is seen:
    // the trial counts as bounded and records nothing.
    assert_eq!(mandelbrot(c(1, 0), 2).len(), 0);
    assert_eq!(mandelbrot(c(1, 0), 3).len(), 2);
}

#[test]
fn escape_comparison_is_strict_at_magnitude_two() {
    // |2 + 0i| is exactly 2 at step 0: not an escape, so the seed itself is
    // recorded; the next iterate (6) escapes.
    let t = mandelbrot(c(2, 0), 10);
    assert_eq!(t.len(), 1);
    assert_eq!(t[0], c(2, 0));
}

#[test]
fn map_to_pixel_projects_the_sampled_square() {
    // 0 + 0i maps to the centre of a 4x4 window
    assert_eq!(map_to_pixel(c(0, 0), 4, 4), (2, 2));
    // -2 - 2i maps to the origin
    assert_eq!(map_to_pixel(c(-2, -2), 4, 4), (0, 0));
    // 2 + 2i maps one past the last pixel in both directions
    assert_eq!(map_to_pixel(c(2, 2), 4, 4), (4, 4));
}

#[test]
fn bound_check_keeps_exactly_the_window() {
    // 4x4 window
    assert!(is_inside(4, 16, (0, 0)));
    assert!(is_inside(4, 16, (3, 3)));
    assert!(!is_inside(4, 16, (4, 0)));
    assert!(!is_inside(4, 16, (0, 4)));
    assert!(!is_inside(4, 16, (-1, 0)));
    assert!(!is_inside(4, 16, (0, -1)));
    // a non-square window: height 2
    assert!(is_inside(4, 8, (3, 1)));
    assert!(!is_inside(4, 8, (3, 2)));
}

#[test]
fn accumulate_keeps_in_window_points_and_drops_the_rest() {
    let mut im = Image::<Scalar>::new(16, 4);
    // one point at the centre, one exactly on the right edge (dropped)
    let trajectory = vec![c(0, 0), c(2, 0)];
    accumulate_trajectory(&mut im, &trajectory, ColorChannel::Red);
    assert_eq!(im.get((2, 2)), Scalar::new(1));
    let total: u64 = im.pixels().iter().map(|p| p.v).sum();
    assert_eq!(total, 1);
}

#[test]
fn accumulate_lands_in_the_chosen_channel() {
    let mut im = Image::<Rgb>::new(16, 4);
    let trajectory = vec![c(0, 0)];
    accumulate_trajectory(&mut im, &trajectory, ColorChannel::Green);
    assert_eq!(im.get((2, 2)), Rgb::new(0, 1, 0));
}

#[test]
fn merge_into_accumulates_every_pixel_once() {
    let mut shared = Image::<Scalar>::new(4, 2);
    shared.add((0, 0), Scalar::new(1));
    shared.add((1, 1), Scalar::new(2));
    let mut private = Image::<Scalar>::new(4, 2);
    private.add((0, 0), Scalar::new(10));
    private.add((0, 1), Scalar::new(20));
    merge_into(&mut shared, &private);
    assert_eq!(shared.get((0, 0)), Scalar::new(11));
    assert_eq!(shared.get((1, 0)), Scalar::new(0));
    assert_eq!(shared.get((0, 1)), Scalar::new(20));
    assert_eq!(shared.get((1, 1)), Scalar::new(2));
}

#[test]
fn one_worker_and_four_workers_build_the_same_histogram() {
    // The same trials, run in one accumulation or split over four private
    // buffers merged in, give identical images.
    let seeds = [
        c(1, 0),
        c(2, 0),
        c(0, 2),
        c(-2, 0),
        c(1, 1),
        c(-1, 1),
        c(0, 0),
        c(-2, -2),
    ];
    let n = 20;

    let mut single = Image::<Scalar>::new(64, 8);
    for s in &seeds {
        let t = mandelbrot(*s, n);
        accumulate_trajectory(&mut single, &t, ColorChannel::Red);
    }

    let mut shared = Image::<Scalar>::new(64, 8);
    for part in seeds.chunks(2) {
        let mut private = Image::<Scalar>::new(64, 8);
        for s in part {
            let t = mandelbrot(*s, n);
            accumulate_trajectory(&mut private, &t, ColorChannel::Red);
        }
        merge_into(&mut shared, &private);
    }

    assert_eq!(single.pixels(), shared.pixels());
}

#[test]
fn merge_order_does_not_change_the_histogram() {
    let mut a = Image::<Scalar>::new(4, 2);
    a.add((0, 0), Scalar::new(3));
    let mut b = Image::<Scalar>::new(4, 2);
    b.add((0, 0), Scalar::new(5));
    b.add((1, 1), Scalar::new(7));

    let mut ab = Image::<Scalar>::new(4, 2);
    merge_into(&mut ab, &a);
    merge_into(&mut ab, &b);
    let mut ba = Image::<Scalar>::new(4, 2);
    merge_into(&mut ba, &b);
    merge_into(&mut ba, &a);
    assert_eq!(ab.pixels(), ba.pixels());
}

#[test]
fn seed_coord_covers_exactly_the_sampled_interval() {
    assert_eq!(seed_coord(0).v, -131072);
    assert_eq!(seed_coord(131072).v, 0);
    assert_eq!(seed_coord(262143).v, 131071);
    // the draw wraps on the grid size
    assert_eq!(seed_coord(262144).v, -131072);
}

#[test]
fn sample_trial_deposits_at_most_n_per_trial() {
    let mut rng = rand::thread_rng();
    let mut im = Image::<Scalar>::new(64, 8);
    let trials = 200usize;
    let n = 30u32;
    for _ in 0..trials {
        sample_trial(&mut rng, &mut im, n, ColorChannel::Red);
    }
    assert_eq!(im.size, 64);
    assert_eq!(im.width, 8);
    let total: u64 = im.pixels().iter().map(|p| p.v).sum();
    assert!(total <= (trials as u64) * (n as u64));
}

#[test]
fn trials_split_evenly_rounded_up() {
    assert_eq!(trials_per_worker(100, 4), 25);
    assert_eq!(trials_per_worker(101, 4), 26);
    assert_eq!(trials_per_worker(0, 3), 0);
    assert_eq!(trials_per_worker(7, 1), 7);
    assert_eq!(trials_per_worker(1, 8), 1);
}

#[test]
fn progress_reports_on_multiples_only() {
    assert!(!should_report(0, 5));
    assert!(!should_report(3, 5));
    assert!(should_report(5, 5));
    assert!(!should_report(7, 5));
    assert!(should_report(10, 5));
    assert!(should_report(1, 1));
}
