//! The Monte Carlo sampling engine.
//!
//! A trial draws a random seed from the square `[-2, 2)²`, iterates
//! `z := z² + c` recording the visited points, and — only if the orbit
//! escapes the radius-2 disc before the step bound — deposits a unit
//! contribution into every visited pixel that falls inside the window.
//! Workers accumulate into private buffers that are merged into the shared
//! image once each; merging commutes because color accumulation does.

use rand::Rng;
use vstd::prelude::*;

use crate::color::{Color, ColorChannel};
use crate::complex::{Complex, Hypot, Num};
use crate::fixed::Fixed;
use crate::images::Image;

verus! {

/// The iterate after `k` steps of `z := z² + c` started at `z₀ = c`.
pub open spec fn orbit<T: Num + Hypot>(c: Complex<T>, k: nat) -> Complex<T>
    decreases k,
{
    if k == 0 {
        c
    } else {
        let z = orbit(c, (k - 1) as nat);
        z.mul_spec(z).add_spec(c)
    }
}

/// Whether an iterate has left the disc of radius 2: strictly greater, so a
/// seed of magnitude exactly 2 has not escaped.
pub open spec fn escaped<T: Num + Hypot>(z: Complex<T>) -> bool {
    z.abs_spec().gt_spec(T::two_spec())
}

/// Whether the orbit of `c` escapes at some step before `n`.
pub open spec fn escapes_within<T: Num + Hypot>(c: Complex<T>, n: nat) -> bool {
    exists|k: nat| k < n && #[trigger] escaped(orbit(c, k))
}

/// The first step at which the orbit of `c` has escaped, when one exists
/// before `n`.
pub open spec fn escape_step<T: Num + Hypot>(c: Complex<T>, n: nat) -> nat
    decreases n,
{
    if n == 0 {
        0
    } else if escapes_within(c, (n - 1) as nat) {
        escape_step(c, (n - 1) as nat)
    } else {
        (n - 1) as nat
    }
}

/// The recorded trajectory of `c` under at most `n` steps: the iterates
/// strictly before the first escaped one, or nothing at all when the orbit
/// stays bounded for all `n` steps.
pub open spec fn trajectory_spec<T: Num + Hypot>(c: Complex<T>, n: nat) -> Seq<Complex<T>> {
    if escapes_within(c, n) {
        Seq::new(escape_step(c, n) as nat, |i: int| orbit(c, i as nat))
    } else {
        Seq::empty()
    }
}

/// `escape_step` is the least escaped step: it is escaped, below `n`, and
/// everything before it is not escaped.
proof fn lemma_escape_step_least<T: Num + Hypot>(c: Complex<T>, n: nat)
    requires
        escapes_within(c, n),
    ensures
        escape_step(c, n) < n,
        escaped(orbit(c, escape_step(c, n))),
        forall|j: nat| j < escape_step(c, n) ==> !#[trigger] escaped(orbit(c, j)),
    decreases n,
{
    if n > 0 {
        if escapes_within(c, (n - 1) as nat) {
            lemma_escape_step_least(c, (n - 1) as nat);
        } else {
            let k = choose|k: nat| k < n && #[trigger] escaped(orbit(c, k));
            assert(k == n - 1);
            assert forall|j: nat| j < escape_step(c, n) implies !#[trigger] escaped(
                orbit(c, j),
            ) by {
                if escaped(orbit(c, j)) {
                    assert(escapes_within(c, (n - 1) as nat));
                }
            }
        }
    }
}

/// A step that is escaped and preceded only by non-escaped steps is the
/// escape step for every bound it lies under.
proof fn lemma_first_escape<T: Num + Hypot>(c: Complex<T>, n: nat, k: nat)
    requires
        k < n,
        escaped(orbit(c, k)),
        forall|j: nat| j < k ==> !#[trigger] escaped(orbit(c, j)),
    ensures
        escapes_within(c, n),
        escape_step(c, n) == k,
{
    assert(escapes_within(c, n));
    lemma_escape_step_least(c, n);
    let s = escape_step(c, n);
    if s < k {
        assert(!escaped(orbit(c, s)));
        assert(false);
    }
    if k < s {
        assert(!escaped(orbit(c, k)));
        assert(false);
    }
}

/// The identity placement of a seed in the sampled plane.
fn transform<T: Num>(c: Complex<T>) -> (r: Complex<T>)
    ensures
        r == c,
{
    c
}

/// The identity placement of an iterate back into the sampled plane.
fn transform_inverse<T: Num>(c: Complex<T>) -> (r: Complex<T>)
    ensures
        r == c,
{
    c
}

/// Calculates the path of a complex number over at most `n` iterations of
/// `z := z² + c`: the visited points strictly before the first escaped
/// iterate, or an empty path when the orbit never escapes. The escaped
/// iterate itself is never recorded.
pub fn mandelbrot<T: Num + Hypot>(c: Complex<T>, n: u32) -> (sequence: Vec<Complex<T>>)
    ensures
        sequence@ == trajectory_spec(c, n as nat),
{
    let mut z = c;
    let mut sequence: Vec<Complex<T>> = Vec::new();
    let mut k: u32 = 0;
    while k < n
        invariant
            k <= n,
            z == orbit(c, k as nat),
            sequence@.len() == k,
            forall|i: int| 0 <= i < k ==> sequence@[i] == orbit(c, i as nat),
            forall|j: nat| j < k ==> !#[trigger] escaped(orbit(c, j)),
        decreases n - k,
    {
        if z.abs().gt(T::two()) {
            proof {
                lemma_first_escape(c, n as nat, k as nat);
                assert(sequence@ =~= trajectory_spec(c, n as nat));
            }
            return sequence;
        }
        sequence.push(z);
        z = z.mul(z).add(c);
        k += 1;
    }
    proof {
        if escapes_within(c, n as nat) {
            let j = choose|j: nat| j < n && #[trigger] escaped(orbit(c, j));
            assert(!escaped(orbit(c, j)));
            assert(false);
        }
        assert(Seq::<Complex<T>>::empty() =~= trajectory_spec(c, n as nat));
    }
    Vec::new()
}

/// A trajectory that escapes before the bound holds exactly the iterates
/// before the first escaped one — none of them escaped, and in particular
/// never the escaped iterate itself.
pub proof fn lemma_escape_trajectory<T: Num + Hypot>(c: Complex<T>, n: nat)
    requires
        escapes_within(c, n),
    ensures
        trajectory_spec(c, n).len() == escape_step(c, n),
        escaped(orbit(c, escape_step(c, n))),
        forall|i: int|
            0 <= i < escape_step(c, n) ==> #[trigger] trajectory_spec(c, n)[i] == orbit(
                c,
                i as nat,
            ) && !escaped(trajectory_spec(c, n)[i]),
{
    lemma_escape_step_least(c, n);
}

/// A seed whose orbit stays within the disc for all `n` steps contributes
/// nothing: its trajectory is empty.
pub proof fn lemma_bounded_trajectory<T: Num + Hypot>(c: Complex<T>, n: nat)
    requires
        !escapes_within(c, n),
    ensures
        trajectory_spec(c, n).len() == 0,
{
}

/// What `map_to_pixel` returns: the iterate projected from the sampled
/// square `[-2, 2)²` onto `[0, 1)²` and scaled to pixel coordinates,
/// truncating toward zero.
pub open spec fn map_to_pixel_spec<T: Num>(z: Complex<T>, width: usize, height: usize) -> (
    i32,
    i32,
) {
    (
        z.re.mul_spec(T::quarter_spec()).add_spec(T::half_spec()).mul_spec(
            T::of_usize_spec(width),
        ).as_i32_spec(),
        z.im.mul_spec(T::quarter_spec()).add_spec(T::half_spec()).mul_spec(
            T::of_usize_spec(height),
        ).as_i32_spec(),
    )
}

/// Converts a trajectory point to pixel coordinates.
pub fn map_to_pixel<T: Num>(z: Complex<T>, width: usize, height: usize) -> (px: (i32, i32))
    ensures
        px == map_to_pixel_spec(z, width, height),
{
    let p = transform_inverse(z).mul_real(T::quarter()).add_real(T::half());
    (p.re.mul(T::of_usize(width)).as_i32(), p.im.mul(T::of_usize(height)).as_i32())
}

/// Whether a mapped pixel coordinate lies inside the image window.
pub open spec fn inside_spec(width: usize, size: usize, px: (i32, i32)) -> bool {
    0 <= px.0 < width as int && 0 <= px.1 < (size as int) / (width as int)
}

/// Ensures the complex number is inside the image: kept exactly when
/// `0 <= x < width` and `0 <= y < height`; coordinates equal to the extent
/// are rejected.
pub fn is_inside(width: usize, size: usize, px: (i32, i32)) -> (r: bool)
    requires
        0 < width,
        size % width == 0,
    ensures
        r == inside_spec(width, size, px),
{
    px.0 >= 0 && px.1 >= 0 && (px.0 as usize) < width && (px.1 as usize) < size / width
}

/// One trajectory point deposited into the histogram: a unit contribution
/// added to the mapped pixel when it lies inside the window, and nothing
/// otherwise.
pub open spec fn apply_point<C: Color, T: Num>(
    data: Seq<C>,
    width: usize,
    size: usize,
    z: Complex<T>,
    channel: ColorChannel,
) -> Seq<C> {
    let h = ((size as int) / (width as int)) as usize;
    let px = map_to_pixel_spec(z, width, h);
    if inside_spec(width, size, px) {
        let idx = (px.1 as int) * (width as int) + (px.0 as int);
        data.update(idx, data[idx].add_spec(C::one_spec(channel)))
    } else {
        data
    }
}

/// A whole trajectory deposited into the histogram, point by point.
pub open spec fn deposit<C: Color, T: Num>(
    data: Seq<C>,
    width: usize,
    size: usize,
    pts: Seq<Complex<T>>,
    channel: ColorChannel,
) -> Seq<C>
    decreases pts.len(),
{
    if pts.len() == 0 {
        data
    } else {
        apply_point(deposit(data, width, size, pts.drop_last(), channel), width, size, pts.last(), channel)
    }
}

/// Accumulates one trajectory into the histogram: every in-window point
/// adds a unit contribution along `channel` to its pixel; out-of-window
/// points are silently dropped.
pub fn accumulate_trajectory<C: Color, T: Num>(
    im: &mut Image<C>,
    trajectory: &Vec<Complex<T>>,
    channel: ColorChannel,
)
    requires
        old(im).wf(),
        C::valid_channel(channel),
    ensures
        final(im).wf(),
        final(im).size == old(im).size,
        final(im).width == old(im).width,
        final(im)@ == deposit(old(im)@, old(im).width, old(im).size, trajectory@, channel),
{
    let height = im.height();
    let mut k: usize = 0;
    while k < trajectory.len()
        invariant
            im.wf(),
            im.size == old(im).size,
            im.width == old(im).width,
            height == im.height_spec(),
            C::valid_channel(channel),
            k <= trajectory@.len(),
            im@ == deposit(old(im)@, im.width, im.size, trajectory@.take(k as int), channel),
        decreases trajectory@.len() - k,
    {
        let z = trajectory[k];
        let px = map_to_pixel(z, im.width, height);
        proof {
            assert(trajectory@.take(k + 1).drop_last() =~= trajectory@.take(k as int));
            assert(trajectory@.take(k + 1).last() == trajectory@[k as int]);
        }
        if is_inside(im.width, im.size, px) {
            im.add((px.0 as usize, px.1 as usize), C::one(channel));
        }
        k += 1;
    }
    proof {
        assert(trajectory@.take(trajectory@.len() as int) =~= trajectory@);
    }
}

/// Declares `rand::rngs::ThreadRng`, the thread-local generator each worker
/// owns, so that it can cross the library's signatures; the library reads
/// nothing from it.
#[verifier::external_type_specification]
#[verifier::external_body]
pub struct ExThreadRng(rand::rngs::ThreadRng);

/// Relies on `rand::Rng::gen::<u32>`: one draw from the given generator.
/// The value is random, so nothing is promised of it.
#[verifier::external_body]
fn random_u32(rng: &mut rand::rngs::ThreadRng) -> (r: u32) {
    rng.gen::<u32>()
}

/// What `seed_coord` returns: the draw reduced onto the 2⁻¹⁶-spaced grid
/// over `[-2, 2)`.
pub open spec fn seed_coord_spec(r: u32) -> Fixed {
    Fixed { v: (((r as int) % 262144) - 131072) as i64 }
}

/// Whether `c` lies in the sampled square `[-2, 2)²`.
pub open spec fn in_seed_domain(c: Complex<Fixed>) -> bool {
    -131072 <= c.re.v < 131072 && -131072 <= c.im.v < 131072
}

/// Scales one random draw onto the seed interval `[-2, 2)`.
pub fn seed_coord(r: u32) -> (f: Fixed)
    ensures
        f == seed_coord_spec(r),
        -131072 <= f.v < 131072,
{
    Fixed { v: (r % 262144) as i64 - 131072 }
}

/// Draws a random seed uniformly from the sampled square `[-2, 2)²`.
pub fn random_seed(rng: &mut rand::rngs::ThreadRng) -> (c: Complex<Fixed>)
    ensures
        in_seed_domain(c),
{
    let r1 = random_u32(rng);
    let r2 = random_u32(rng);
    transform(Complex::new(seed_coord(r1), seed_coord(r2)))
}

/// Runs one Monte Carlo trial against a (private or shared) histogram:
/// draws a seed, computes its escape trajectory, and deposits it. Whatever
/// the generator returned, the image afterwards is the old image with the
/// trajectory of some in-domain seed deposited.
pub fn sample_trial<C: Color>(
    rng: &mut rand::rngs::ThreadRng,
    im: &mut Image<C>,
    n: u32,
    channel: ColorChannel,
)
    requires
        old(im).wf(),
        C::valid_channel(channel),
    ensures
        final(im).wf(),
        final(im).size == old(im).size,
        final(im).width == old(im).width,
        exists|c: Complex<Fixed>|
            #[trigger] in_seed_domain(c) && final(im)@ == deposit(
                old(im)@,
                old(im).width,
                old(im).size,
                trajectory_spec(c, n as nat),
                channel,
            ),
{
    let c = random_seed(rng);
    let trajectory = mandelbrot(c, n);
    accumulate_trajectory(im, &trajectory, channel);
}

/// What merging one buffer into another leaves behind: the element-wise
/// accumulation of the two.
pub open spec fn merge_seq<C: Color>(a: Seq<C>, b: Seq<C>) -> Seq<C> {
    Seq::new(a.len(), |i: int| a[i].add_spec(b[i]))
}

/// Folds a worker's private buffer into the shared image by accumulating
/// every pixel once.
pub fn merge_into<C: Color>(dst: &mut Image<C>, src: &Image<C>)
    requires
        old(dst).wf(),
        src.wf(),
        old(dst).size == src.size,
        old(dst).width == src.width,
    ensures
        final(dst).wf(),
        final(dst).size == old(dst).size,
        final(dst).width == old(dst).width,
        final(dst)@ == merge_seq(old(dst)@, src@),
{
    let height = dst.height();
    let mut y: usize = 0;
    while y < height
        invariant
            dst.wf(),
            src.wf(),
            dst.size == old(dst).size,
            dst.width == old(dst).width,
            dst.size == src.size,
            dst.width == src.width,
            height == dst.height_spec(),
            y <= height,
            dst@.len() == old(dst)@.len(),
            forall|j: int|
                0 <= j < y * dst.width as int ==> #[trigger] dst@[j] == old(dst)@[j].add_spec(
                    src@[j],
                ),
            forall|j: int| y * dst.width as int <= j < dst@.len() ==> #[trigger] dst@[j] == old(
                dst,
            )@[j],
        decreases height - y,
    {
        let mut x: usize = 0;
        while x < dst.width
            invariant
                dst.wf(),
                src.wf(),
                dst.size == old(dst).size,
                dst.width == old(dst).width,
                dst.size == src.size,
                dst.width == src.width,
                height == dst.height_spec(),
                y < height,
                x <= dst.width,
                dst@.len() == old(dst)@.len(),
                forall|j: int|
                    0 <= j < y * dst.width as int + x ==> #[trigger] dst@[j] == old(
                        dst,
                    )@[j].add_spec(src@[j]),
                forall|j: int|
                    y * dst.width as int + x <= j < dst@.len() ==> #[trigger] dst@[j] == old(
                        dst,
                    )@[j],
            decreases dst.width - x,
        {
            proof {
                crate::images::lemma_pixel_order_bijection(
                    dst.size as int,
                    dst.width as int,
                    x as int,
                    y as int,
                );
            }
            let v = src.get((x, y));
            dst.add((x, y), v);
            x += 1;
        }
        y += 1;
        proof {
            assert(y * dst.width as int == (y - 1) * dst.width as int + dst.width as int)
                by (nonlinear_arith);
        }
    }
    proof {
        assert(height * dst.width as int == dst.size as int) by (nonlinear_arith)
            requires
                height == dst.size as int / dst.width as int,
                0 < dst.width,
                dst.size as int % dst.width as int == 0,
        ;
        assert(final(dst)@ =~= merge_seq(old(dst)@, src@));
    }
}

/// Folding two private buffers into the shared histogram gives the same
/// result in either order: the merge step commutes, which is what makes the
/// fork-join accumulation strategy correct whatever the workers' timing.
pub proof fn lemma_merge_order_independent<C: Color>(base: Seq<C>, a: Seq<C>, b: Seq<C>)
    requires
        a.len() == base.len(),
        b.len() == base.len(),
    ensures
        merge_seq(merge_seq(base, a), b) == merge_seq(merge_seq(base, b), a),
{
    assert forall|i: int| 0 <= i < base.len() implies merge_seq(merge_seq(base, a), b)[i]
        == merge_seq(merge_seq(base, b), a)[i] by {
        C::lemma_add_assoc(base[i], a[i], b[i]);
        C::lemma_add_comm(a[i], b[i]);
        C::lemma_add_assoc(base[i], b[i], a[i]);
    }
    assert(merge_seq(merge_seq(base, a), b) =~= merge_seq(merge_seq(base, b), a));
}

/// How many trials each of `cpus` workers runs so that every one of `iters`
/// trials is covered: the total split evenly, rounded up.
pub fn trials_per_worker(iters: usize, cpus: usize) -> (r: usize)
    requires
        1 <= cpus,
    ensures
        r == ((iters + cpus - 1) as int) / (cpus as int),
{
    let q = iters / cpus;
    let rem = iters % cpus;
    proof {
        vstd::arithmetic::div_mod::lemma_fundamental_div_mod(iters as int, cpus as int);
        if rem == 0 {
            vstd::arithmetic::div_mod::lemma_div_multiples_vanish_fancy(
                q as int,
                (cpus - 1) as int,
                cpus as int,
            );
            assert((cpus as int) * (q as int) + (cpus - 1) == (iters + cpus - 1));
        } else {
            assert(q + 1 <= iters) by (nonlinear_arith)
                requires
                    iters as int == (cpus as int) * (q as int) + rem,
                    1 <= rem,
                    1 <= cpus as int,
                    0 <= q,
            ;
            vstd::arithmetic::div_mod::lemma_div_multiples_vanish_fancy(
                (q + 1) as int,
                (rem - 1) as int,
                cpus as int,
            );
            assert((cpus as int) * ((q + 1) as int) + (rem - 1) == (iters + cpus - 1))
                by (nonlinear_arith)
                requires
                    iters as int == (cpus as int) * (q as int) + rem as int,
                    1 <= rem,
            ;
        }
    }
    if rem == 0 {
        q
    } else {
        q + 1
    }
}

/// Whether a worker should push a progress update after trial `i`: every
/// `progress_update` trials, but never before the first.
pub fn should_report(i: usize, progress_update: usize) -> (r: bool)
    requires
        1 <= progress_update,
    ensures
        r == (i != 0 && i % progress_update == 0),
{
    i != 0 && i % progress_update == 0
}

} // verus!
