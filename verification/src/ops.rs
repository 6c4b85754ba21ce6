//! Whole-image collaborators around the sampler: normalization, the two
//! geometric symmetry operations, and multi-pass channel fusion.
//!
//! All of them consume the pixel buffer only through its addressed
//! operations; the symmetry operations require a square image.

use vstd::pervasive::VecAdditionalExecFns;
use vstd::prelude::*;

use crate::color::{all_nonzero, Color, Rgb, Scalar};
use crate::images::{lemma_index_coords, lemma_pixel_order_bijection, Image};

verus! {

/// The running element-wise maximum of a buffer, folded from the empty
/// color in index order.
pub open spec fn max_fold<C: Color>(s: Seq<C>) -> C
    decreases s.len(),
{
    if s.len() == 0 {
        C::empty_spec()
    } else {
        max_fold(s.drop_last()).max_spec(s.last())
    }
}

/// Divides every pixel by the element-wise maximum over the image, so that
/// each channel afterwards is at most 1 unit. An image whose maximum has a
/// zero channel (an empty histogram) has nothing to scale by and is left
/// unchanged.
pub fn normalize_im<C: Color>(im: &mut Image<C>)
    requires
        old(im).wf(),
    ensures
        final(im).wf(),
        final(im).size == old(im).size,
        final(im).width == old(im).width,
        (if all_nonzero(max_fold(old(im)@)) {
            final(im)@ == Seq::new(
                old(im)@.len(),
                (|i: int| old(im)@[i].cdiv_spec(max_fold(old(im)@))),
            )
        } else {
            final(im)@ == old(im)@
        }),
{
    let mut m = C::empty();
    let mut i: usize = 0;
    while i < im.size
        invariant
            im.wf(),
            *im == *old(im),
            i <= im.size,
            m == max_fold(im@.take(i as int)),
        decreases im.size - i,
    {
        proof {
            assert(im@.take(i + 1).drop_last() =~= im@.take(i as int));
            assert(im@.take(i + 1).last() == im@[i as int]);
        }
        m = m.max(im.data[i]);
        i += 1;
    }
    proof {
        assert(im@.take(im@.len() as int) =~= im@);
    }
    if m.nonzero() {
        proof {
            C::lemma_chans_len(m);
        }
        let mut k: usize = 0;
        while k < im.size
            invariant
                im.wf(),
                im.size == old(im).size,
                im.width == old(im).width,
                im@.len() == old(im)@.len(),
                k <= im.size,
                m == max_fold(old(im)@),
                all_nonzero(m),
                forall|j: int| 0 <= j < k ==> #[trigger] im@[j] == old(im)@[j].cdiv_spec(m),
                forall|j: int| k <= j < im@.len() ==> #[trigger] im@[j] == old(im)@[j],
            decreases im.size - k,
        {
            let mut c = im.data[k];
            c.cdiv_assign(m);
            im.data.set(k, c);
            k += 1;
        }
        proof {
            assert(im@ =~= Seq::new(
                old(im)@.len(),
                (|i: int| old(im)@[i].cdiv_spec(max_fold(old(im)@))),
            ));
        }
    }
}

/// The cell in the row mirrored across the horizontal midline.
pub open spec fn mirror_index(k: int, width: int) -> int {
    (width - 1 - k / width) * width + (k % width)
}

/// How the mirrored cell relates to its source in a square buffer: it is in
/// range, mirroring twice comes back, it shares the column, rows pair up
/// around the midline, and of a pair of distinct cells the smaller index
/// lies in the first half of the buffer.
proof fn lemma_mirror(size: int, width: int, k: int)
    requires
        0 < width,
        size == width * width,
        0 <= k < size,
    ensures
        size % width == 0,
        size / width == width,
        0 <= mirror_index(k, width) < size,
        mirror_index(mirror_index(k, width), width) == k,
        mirror_index(k, width) % width == k % width,
        mirror_index(k, width) / width == width - 1 - k / width,
        (mirror_index(k, width) == k) <==> (2 * (k / width) == width - 1),
        mirror_index(k, width) != k ==> (if k < mirror_index(k, width) {
            k
        } else {
            mirror_index(k, width)
        }) < size / 2,
        (k < size / 2 && mirror_index(k, width) != k) ==> k < mirror_index(k, width),
{
    vstd::arithmetic::div_mod::lemma_mod_multiples_basic(width, width);
    vstd::arithmetic::div_mod::lemma_div_multiples_vanish(width, width);
    assert(size % width == 0);
    assert(size / width == width);
    lemma_index_coords(size, width, k);
    let x = k % width;
    let y = k / width;
    let y2 = width - 1 - y;
    lemma_pixel_order_bijection(size, width, x, y2);
    let m = mirror_index(k, width);
    assert(m == y2 * width + x);
    assert(m % width == x && m / width == y2);
    assert(mirror_index(m, width) == (width - 1 - y2) * width + x);
    assert(width - 1 - y2 == y);
    assert(mirror_index(m, width) == k);
    // equality holds exactly on the middle row
    if m == k {
        assert(y2 == y);
        assert(2 * y == width - 1);
    }
    if 2 * y == width - 1 {
        assert(y2 == y);
        assert(m == k);
    }
    // the fundamental relation of halving
    vstd::arithmetic::div_mod::lemma_fundamental_div_mod(size, 2);
    if m != k {
        assert(y2 != y);
        if y < y2 {
            assert(2 * y < width - 1);
            assert(2 * k <= size - 2) by (nonlinear_arith)
                requires
                    k == y * width + x,
                    0 <= x < width,
                    2 * y <= width - 2,
                    size == width * width,
            ;
            assert(k < size / 2);
            assert(k < m) by (nonlinear_arith)
                requires
                    m == y2 * width + x,
                    k == y * width + x,
                    y < y2,
                    0 < width,
            ;
        } else {
            assert(2 * y2 < width - 1);
            assert(2 * m <= size - 2) by (nonlinear_arith)
                requires
                    m == y2 * width + x,
                    0 <= x < width,
                    2 * y2 <= width - 2,
                    size == width * width,
            ;
            assert(m < size / 2);
            assert(m < k) by (nonlinear_arith)
                requires
                    m == y2 * width + x,
                    k == y * width + x,
                    y2 < y,
                    0 < width,
            ;
        }
    }
    if k < size / 2 && m != k {
        assert(2 * k < size);
        assert(2 * y <= width - 1) by (nonlinear_arith)
            requires
                k == y * width + x,
                0 <= x < width,
                0 <= y,
                2 * k < size,
                size == width * width,
        ;
        assert(y <= y2);
        assert(k < m) by (nonlinear_arith)
            requires
                m == y2 * width + x,
                k == y * width + x,
                y < y2,
                0 < width,
        ;
    }
}

/// Reflects the image across its horizontal midline and accumulates the
/// reflection back onto the original: each cell of a mirrored pair receives
/// the other's old value. On an odd height the middle row pairs with
/// itself, so its first-half cells accumulate their own value twice and the
/// rest of the row is untouched.
pub fn reflect_im<C: Color>(im: &mut Image<C>)
    requires
        old(im).wf(),
        old(im).size as int == old(im).width as int * old(im).width as int,
    ensures
        final(im).wf(),
        final(im).size == old(im).size,
        final(im).width == old(im).width,
        forall|k: int|
            0 <= k < old(im)@.len() ==> #[trigger] final(im)@[k] == (if mirror_index(
                k,
                old(im).width as int,
            ) != k {
                old(im)@[k].add_spec(old(im)@[mirror_index(k, old(im).width as int)])
            } else if k < old(im).size as int / 2 {
                old(im)@[k].add_spec(old(im)@[k]).add_spec(old(im)@[k])
            } else {
                old(im)@[k]
            }),
{
    let half = im.size / 2;
    let ghost w = im.width as int;
    let mut i: usize = 0;
    proof {
        assert forall|k: int| 0 <= k < im@.len() implies mirror_index(k, w) >= 0 by {
            lemma_mirror(im.size as int, w, k);
        }
    }
    while i < half
        invariant
            im.wf(),
            im.size == old(im).size,
            im.width == old(im).width,
            im@.len() == old(im)@.len(),
            im.size as int == w * w,
            w == im.width as int,
            half == im.size as int / 2,
            i <= half,
            forall|k: int|
                0 <= k < im@.len() ==> #[trigger] im@[k] == (if mirror_index(k, w) != k && (if k
                    < mirror_index(k, w) {
                    k
                } else {
                    mirror_index(k, w)
                }) < i {
                    old(im)@[k].add_spec(old(im)@[mirror_index(k, w)])
                } else if mirror_index(k, w) == k && k < i {
                    old(im)@[k].add_spec(old(im)@[k]).add_spec(old(im)@[k])
                } else {
                    old(im)@[k]
                }),
        decreases half - i,
    {
        proof {
            lemma_mirror(im.size as int, w, i as int);
            lemma_index_coords(im.size as int, w, i as int);
        }
        let x = i % im.width;
        let y = i / im.width;
        let ghost j = mirror_index(i as int, w);
        let c1 = im.get((x, y));
        let c2 = im.get((x, im.width - y - 1));
        proof {
            assert(im.pix_index((x, y)) == i as int);
            assert(im.pix_index((x, (im.width - y - 1) as usize)) == j);
        }
        im.add((x, im.width - y - 1), c1);
        im.add((x, y), c2);
        i += 1;
        proof {
            let prev = old(im)@;
            assert forall|k: int| 0 <= k < im@.len() implies #[trigger] im@[k] == (if mirror_index(
                k,
                w,
            ) != k && (if k < mirror_index(k, w) {
                k
            } else {
                mirror_index(k, w)
            }) < i {
                prev[k].add_spec(prev[mirror_index(k, w)])
            } else if mirror_index(k, w) == k && k < i {
                prev[k].add_spec(prev[k]).add_spec(prev[k])
            } else {
                prev[k]
            }) by {
                lemma_mirror(im.size as int, w, k);
            }
        }
    }
    proof {
        assert forall|k: int| 0 <= k < old(im)@.len() implies #[trigger] im@[k] == (
        if mirror_index(k, w) != k {
            old(im)@[k].add_spec(old(im)@[mirror_index(k, w)])
        } else if k < old(im).size as int / 2 {
            old(im)@[k].add_spec(old(im)@[k]).add_spec(old(im)@[k])
        } else {
            old(im)@[k]
        }) by {
            lemma_mirror(im.size as int, w, k);
        }
    }
}

/// The cell at the transposed coordinates: row and column exchanged.
pub open spec fn transpose_index(k: int, width: int) -> int {
    (k % width) * width + (k / width)
}

/// How the transposed cell relates to its source in a square buffer: it is
/// in range, transposing twice comes back, coordinates swap, the diagonal
/// is fixed, and of an off-diagonal pair the cell above the diagonal has
/// the smaller index.
proof fn lemma_transpose(size: int, width: int, k: int)
    requires
        0 < width,
        size == width * width,
        0 <= k < size,
    ensures
        size % width == 0,
        size / width == width,
        0 <= transpose_index(k, width) < size,
        transpose_index(transpose_index(k, width), width) == k,
        transpose_index(k, width) % width == k / width,
        transpose_index(k, width) / width == k % width,
        (transpose_index(k, width) == k) <==> (k % width == k / width),
        (k % width) > (k / width) ==> k < transpose_index(k, width),
        (k % width) < (k / width) ==> transpose_index(k, width) < k,
{
    vstd::arithmetic::div_mod::lemma_mod_multiples_basic(width, width);
    vstd::arithmetic::div_mod::lemma_div_multiples_vanish(width, width);
    lemma_index_coords(size, width, k);
    let x = k % width;
    let y = k / width;
    lemma_pixel_order_bijection(size, width, y, x);
    let t = transpose_index(k, width);
    assert(t == x * width + y);
    assert(t % width == y && t / width == x);
    assert(transpose_index(t, width) == y * width + x);
    assert(transpose_index(t, width) == k);
    assert(t - k == (x - y) * (width - 1)) by (nonlinear_arith)
        requires
            t == x * width + y,
            k == y * width + x,
    ;
    if x > y {
        assert((x - y) * (width - 1) > 0) by (nonlinear_arith)
            requires
                x - y >= 1,
                width >= 2,
        ;
    }
    if x < y {
        assert((x - y) * (width - 1) < 0) by (nonlinear_arith)
            requires
                x - y <= -1,
                width >= 2,
        ;
    }
    if x == y {
        assert(t == k);
    }
    if t == k {
        assert(x == y);
    }
}

/// Transposes the image in place by swapping every cell above the diagonal
/// with its partner below it. Useful only when rendering the full set,
/// whose symmetry axis the transpose realizes.
pub fn rotate_im<C: Color>(im: &mut Image<C>)
    requires
        old(im).wf(),
        old(im).size as int == old(im).width as int * old(im).width as int,
    ensures
        final(im).wf(),
        final(im).size == old(im).size,
        final(im).width == old(im).width,
        forall|k: int|
            0 <= k < old(im)@.len() ==> #[trigger] final(im)@[k] == old(im)@[transpose_index(
                k,
                old(im).width as int,
            )],
{
    let ghost w = im.width as int;
    let mut i: usize = 0;
    while i < im.size
        invariant
            im.wf(),
            im.size == old(im).size,
            im.width == old(im).width,
            im@.len() == old(im)@.len(),
            im.size as int == w * w,
            w == im.width as int,
            i <= im.size,
            forall|k: int|
                0 <= k < im@.len() ==> #[trigger] im@[k] == (if k % w != k / w && (if k
                    < transpose_index(k, w) {
                    k
                } else {
                    transpose_index(k, w)
                }) < i {
                    old(im)@[transpose_index(k, w)]
                } else {
                    old(im)@[k]
                }),
        decreases im.size - i,
    {
        proof {
            lemma_transpose(im.size as int, w, i as int);
            lemma_index_coords(im.size as int, w, i as int);
        }
        let x = i % im.width;
        let y = i / im.width;
        if x > y {
            proof {
                assert(im.pix_index((x, y)) == i as int);
                assert(im.pix_index((y, x)) == transpose_index(i as int, w));
            }
            im.swap((x, y), (y, x));
        }
        i += 1;
        proof {
            assert forall|k: int| 0 <= k < im@.len() implies #[trigger] im@[k] == (if k % w != k
                / w && (if k < transpose_index(k, w) {
                k
            } else {
                transpose_index(k, w)
            }) < i {
                old(im)@[transpose_index(k, w)]
            } else {
                old(im)@[k]
            }) by {
                lemma_transpose(im.size as int, w, k);
            }
        }
    }
    proof {
        assert forall|k: int| 0 <= k < old(im)@.len() implies #[trigger] im@[k] == old(
            im,
        )@[transpose_index(k, w)] by {
            lemma_transpose(im.size as int, w, k);
        }
    }
}

/// Fuses three monochrome histograms into one RGB image, one per channel.
pub fn fuse(im1: Image<Scalar>, im2: Image<Scalar>, im3: Image<Scalar>) -> (im: Image<Rgb>)
    requires
        im1.wf(),
        im2.wf(),
        im3.wf(),
        im2.size == im1.size,
        im3.size == im1.size,
        im2.width == im1.width,
        im3.width == im1.width,
    ensures
        im.wf(),
        im.size == im1.size,
        im.width == im1.width,
        forall|k: int|
            0 <= k < im1@.len() ==> #[trigger] im@[k] == (Rgb {
                r: im1@[k].v,
                g: im2@[k].v,
                b: im3@[k].v,
            }),
{
    let mut im = Image::<Rgb>::new(im1.size, im1.width);
    let mut k: usize = 0;
    while k < im1.size
        invariant
            im.wf(),
            im1.wf(),
            im2.wf(),
            im3.wf(),
            im.size == im1.size,
            im.width == im1.width,
            im2.size == im1.size,
            im3.size == im1.size,
            im@.len() == im1@.len(),
            k <= im1.size,
            forall|j: int|
                0 <= j < k ==> #[trigger] im@[j] == (Rgb {
                    r: im1@[j].v,
                    g: im2@[j].v,
                    b: im3@[j].v,
                }),
        decreases im1.size - k,
    {
        let c = Rgb::new(im1.data[k].v, im2.data[k].v, im3.data[k].v);
        im.data.set(k, c);
        k += 1;
    }
    im
}

} // verus!
