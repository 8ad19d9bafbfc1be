//! The integer side of rendering a thumbnail: dropping triangles that have a
//! coordinate that is not a finite number, turning the coverage of a
//! supersampled raster into per-pixel counts, and assembling the RGBA image
//! whose alpha is that coverage.

use vstd::prelude::*;

verus! {

/// Supersampling factor: the model is rasterized at `SS` times the output
/// size in each direction, and each output pixel covers `SS * SS` samples.
pub const SS: usize = 2;

/// A vertex as three IEEE 754 single-precision bit patterns.
#[derive(Clone, Copy, Debug, PartialEq, Eq)]
pub struct Point {
    pub x: u32,
    pub y: u32,
    pub z: u32,
}

/// An RGB colour, 8 bits per channel.
#[derive(Clone, Copy, Debug, PartialEq, Eq)]
pub struct Rgb {
    pub r: u8,
    pub g: u8,
    pub b: u8,
}

/// Whether a single-precision bit pattern is a finite number: its exponent
/// bits are not all ones.
pub open spec fn is_finite_bits(b: u32) -> bool {
    b % 0x8000_0000 < 0x7F80_0000
}

pub open spec fn point_finite(p: Point) -> bool {
    is_finite_bits(p.x) && is_finite_bits(p.y) && is_finite_bits(p.z)
}

/// The triangles (groups of three points) of `ps` whose coordinates are all
/// finite, in order; points after the last whole triangle are dropped.
pub open spec fn finite_triangles(ps: Seq<Point>) -> Seq<Point>
    decreases ps.len(),
{
    if ps.len() < 3 {
        Seq::empty()
    } else if point_finite(ps[0]) && point_finite(ps[1]) && point_finite(ps[2]) {
        ps.take(3) + finite_triangles(ps.skip(3))
    } else {
        finite_triangles(ps.skip(3))
    }
}

fn finite_bits(b: u32) -> (r: bool)
    ensures
        r == is_finite_bits(b),
{
    b % 0x8000_0000 < 0x7F80_0000
}

fn finite_point(p: Point) -> (r: bool)
    ensures
        r == point_finite(p),
{
    finite_bits(p.x) && finite_bits(p.y) && finite_bits(p.z)
}

/// Keeps the triangles whose nine coordinates are all finite.
pub fn drop_non_finite(ps: &Vec<Point>) -> (r: Vec<Point>)
    ensures
        r@ == finite_triangles(ps@),
{
    let n = ps.len();
    let mut out: Vec<Point> = Vec::new();
    let mut i: usize = 0;
    assert(ps@.skip(0) =~= ps@);
    while n - i >= 3
        invariant
            i <= n,
            n == ps@.len(),
            finite_triangles(ps@) == out@ + finite_triangles(ps@.skip(i as int)),
        decreases n - i,
    {
        let ghost t = ps@.skip(i as int);
        assert(t.skip(3) =~= ps@.skip(i + 3));
        assert(t[0] == ps@[i as int] && t[1] == ps@[i + 1] && t[2] == ps@[i + 2]);
        if finite_point(ps[i]) && finite_point(ps[i + 1]) && finite_point(ps[i + 2]) {
            let ghost before = out@;
            out.push(ps[i]);
            out.push(ps[i + 1]);
            out.push(ps[i + 2]);
            assert(t.take(3) =~= seq![ps@[i as int], ps@[i + 1], ps@[i + 2]]);
            assert(out@ =~= before + t.take(3));
            assert(before + (t.take(3) + finite_triangles(t.skip(3))) =~= out@
                + finite_triangles(t.skip(3)));
        }
        i = i + 3;
    }
    assert(out@ + finite_triangles(ps@.skip(i as int)) =~= out@);
    out
}

/// A model whose points are all finite, in whole triangles, is kept whole.
pub proof fn law_finite_triangles_kept(ps: Seq<Point>)
    requires
        ps.len() % 3 == 0,
        forall|k: int| 0 <= k < ps.len() ==> point_finite(#[trigger] ps[k]),
    ensures
        finite_triangles(ps) == ps,
    decreases ps.len(),
{
    if ps.len() >= 3 {
        assert(forall|k: int| 0 <= k < ps.len() - 3 ==> #[trigger] ps.skip(3)[k] == ps[k + 3]);
        law_finite_triangles_kept(ps.skip(3));
        assert(ps.take(3) + ps.skip(3) =~= ps);
    } else {
        assert(ps =~= Seq::<Point>::empty());
    }
}

/// Triangles are kept or dropped one by one: what a triangle holds has no
/// effect on whether another is kept.
pub proof fn law_triangles_dropped_independently(a: Seq<Point>, b: Seq<Point>)
    requires
        a.len() % 3 == 0,
    ensures
        finite_triangles(a + b) == finite_triangles(a) + finite_triangles(b),
    decreases a.len(),
{
    if a.len() == 0 {
        assert(a + b =~= b);
        assert(Seq::<Point>::empty() + finite_triangles(b) =~= finite_triangles(b));
    } else {
        let ab = a + b;
        assert(ab.skip(3) =~= a.skip(3) + b);
        assert(ab.take(3) =~= a.take(3));
        assert(ab[0] == a[0] && ab[1] == a[1] && ab[2] == a[2]);
        law_triangles_dropped_independently(a.skip(3), b);
        if point_finite(a[0]) && point_finite(a[1]) && point_finite(a[2]) {
            assert(a.take(3) + (finite_triangles(a.skip(3)) + finite_triangles(b)) =~= (a.take(3)
                + finite_triangles(a.skip(3))) + finite_triangles(b));
        }
    }
}

/// The index of sample (`sy`, `sx`) in a raster `w` samples wide.
pub open spec fn sample_index(w: int, sy: int, sx: int) -> int {
    sy * w + sx
}

/// 1 when the sample is covered, 0 otherwise.
pub open spec fn covered(hit: Seq<bool>, i: int) -> int {
    if hit[i] {
        1
    } else {
        0
    }
}

/// How many of the `SS * SS` samples of output pixel (`y`, `x`) are covered.
pub open spec fn pixel_coverage(hit: Seq<bool>, size: int, y: int, x: int) -> int {
    let w = 2 * size;
    covered(hit, sample_index(w, 2 * y, 2 * x)) + covered(hit, sample_index(w, 2 * y, 2 * x + 1))
        + covered(hit, sample_index(w, 2 * y + 1, 2 * x)) + covered(
        hit,
        sample_index(w, 2 * y + 1, 2 * x + 1),
    )
}

proof fn lemma_sample_bounds(size: int, y: int, x: int)
    requires
        0 <= y < size,
        0 <= x < size,
    ensures
        0 <= sample_index(2 * size, 2 * y, 2 * x),
        sample_index(2 * size, 2 * y + 1, 2 * x + 1) < 4 * size * size,
        sample_index(2 * size, 2 * y, 2 * x + 1) == sample_index(2 * size, 2 * y, 2 * x) + 1,
        sample_index(2 * size, 2 * y + 1, 2 * x) == sample_index(2 * size, 2 * y, 2 * x) + 2
            * size,
        sample_index(2 * size, 2 * y + 1, 2 * x + 1) == sample_index(2 * size, 2 * y, 2 * x) + 2
            * size + 1,
        y * size + x < size * size,
        y * size + x + 1 == if x + 1 < size {
            y * size + (x + 1)
        } else {
            (y + 1) * size
        },
{
    assert(0 <= (2 * y) * (2 * size) + 2 * x) by (nonlinear_arith)
        requires
            0 <= y < size,
            0 <= x < size,
    ;
    assert((2 * y + 1) * (2 * size) + 2 * x + 1 < 4 * size * size) by (nonlinear_arith)
        requires
            0 <= y < size,
            0 <= x < size,
    ;
    assert((2 * y + 1) * (2 * size) == (2 * y) * (2 * size) + 2 * size) by (nonlinear_arith);
    assert(y * size + x < size * size) by (nonlinear_arith)
        requires
            0 <= y < size,
            0 <= x < size,
    ;
    assert((y + 1) * size == y * size + size) by (nonlinear_arith);
}

/// The number of covered samples of each output pixel, row by row; `None`
/// when no sample at all is covered. `hit` holds the `2 * size` by
/// `2 * size` samples row by row.
pub fn coverage(hit: &Vec<bool>, size: usize) -> (r: Option<Vec<u8>>)
    requires
        hit@.len() == 4 * size * size,
    ensures
        r is None <==> forall|i: int| 0 <= i < hit@.len() ==> !hit@[i],
        r matches Some(c) ==> {
            &&& c@.len() == size * size
            &&& forall|p: int| 0 <= p < c@.len() ==> c@[p] <= 4
            &&& forall|y: int, x: int|
                0 <= y < size && 0 <= x < size ==> c@[y * size + x] == pixel_coverage(
                    hit@,
                    size as int,
                    y,
                    x,
                )
        },
{
    let total = hit.len();
    let mut any = false;
    let mut i: usize = 0;
    while i < total
        invariant
            i <= total,
            total == hit@.len(),
            any == exists|k: int| 0 <= k < i && hit@[k],
        decreases total - i,
    {
        if hit[i] {
            any = true;
        }
        i = i + 1;
    }
    if !any {
        return None;
    }
    proof {
        assert(2 * size <= 4 * size * size) by (nonlinear_arith);
    }
    let w = 2 * size;
    let mut out: Vec<u8> = Vec::new();
    let mut y: usize = 0;
    while y < size
        invariant
            hit@.len() == 4 * size * size,
            total == hit@.len(),
            w == 2 * size,
            y <= size,
            out@.len() == y * size,
            forall|p: int| 0 <= p < out@.len() ==> out@[p] <= 4,
            forall|py: int, px: int|
                0 <= py < y && 0 <= px < size ==> out@[py * size + px] == pixel_coverage(
                    hit@,
                    size as int,
                    py,
                    px,
                ),
        decreases size - y,
    {
        let mut x: usize = 0;
        while x < size
            invariant
                hit@.len() == 4 * size * size,
                total == hit@.len(),
                w == 2 * size,
                y < size,
                x <= size,
                out@.len() == y * size + x,
                forall|p: int| 0 <= p < out@.len() ==> out@[p] <= 4,
                forall|py: int, px: int|
                    (0 <= py < y && 0 <= px < size) || (py == y && 0 <= px < x)
                        ==> out@[py * size + px] == pixel_coverage(hit@, size as int, py, px),
            decreases size - x,
        {
            proof {
                lemma_sample_bounds(size as int, y as int, x as int);
            }
            let top = (2 * y) * w + 2 * x;
            let mut n: u8 = 0;
            if hit[top] {
                n = n + 1;
            }
            if hit[top + 1] {
                n = n + 1;
            }
            if hit[top + w] {
                n = n + 1;
            }
            if hit[top + w + 1] {
                n = n + 1;
            }
            let ghost before = out@;
            out.push(n);
            proof {
                assert forall|py: int, px: int|
                    (0 <= py < y && 0 <= px < size) || (py == y && 0 <= px < x + 1) implies out@[py
                    * size + px] == pixel_coverage(hit@, size as int, py, px) by {
                    lemma_sample_bounds(size as int, py, px);
                    if py == y && px == x {
                    } else {
                        assert(py * size + px < y * size + x) by (nonlinear_arith)
                            requires
                                (0 <= py < y && 0 <= px < size) || (py == y && 0 <= px < x),
                        ;
                        assert(out@[py * size + px] == before[py * size + px]);
                    }
                }
            }
            x = x + 1;
        }
        proof {
            lemma_sample_bounds(size as int, y as int, (size - 1) as int);
        }
        y = y + 1;
    }
    proof {
        assert(y * size == size * size);
    }
    Some(out)
}

/// The alpha of a pixel that has `n` covered samples of `SS * SS`.
pub open spec fn alpha_of(n: int) -> int {
    n * 255 / 4
}

/// The RGBA image, 4 bytes per pixel: a pixel with covered samples takes
/// its colour from `colours`, and its alpha is its coverage scaled to 255;
/// a pixel without any is transparent black.
pub fn compose_rgba(counts: &Vec<u8>, colours: &Vec<Rgb>) -> (img: Vec<u8>)
    requires
        counts@.len() == colours@.len(),
        4 * counts@.len() <= usize::MAX,
        forall|p: int| 0 <= p < counts@.len() ==> counts@[p] <= 4,
    ensures
        img@.len() == 4 * counts@.len(),
        forall|p: int|
            #![trigger counts@[p]]
            0 <= p < counts@.len() ==> {
                let c = colours@[p];
                let covered = counts@[p] > 0;
                &&& img@[4 * p] == (if covered { c.r } else { 0 })
                &&& img@[4 * p + 1] == (if covered { c.g } else { 0 })
                &&& img@[4 * p + 2] == (if covered { c.b } else { 0 })
                &&& img@[4 * p + 3] == alpha_of(counts@[p] as int)
            },
{
    let n = counts.len();
    let mut img: Vec<u8> = Vec::new();
    let mut p: usize = 0;
    while p < n
        invariant
            n == counts@.len(),
            n == colours@.len(),
            4 * n <= usize::MAX,
            forall|q: int| 0 <= q < counts@.len() ==> counts@[q] <= 4,
            p <= n,
            img@.len() == 4 * p,
            forall|q: int|
                #![trigger counts@[q]]
                0 <= q < p ==> {
                    let c = colours@[q];
                    let covered = counts@[q] > 0;
                    &&& img@[4 * q] == (if covered { c.r } else { 0 })
                    &&& img@[4 * q + 1] == (if covered { c.g } else { 0 })
                    &&& img@[4 * q + 2] == (if covered { c.b } else { 0 })
                    &&& img@[4 * q + 3] == alpha_of(counts@[q] as int)
                },
        decreases n - p,
    {
        let k = counts[p];
        let c = colours[p];
        if k > 0 {
            img.push(c.r);
            img.push(c.g);
            img.push(c.b);
        } else {
            img.push(0);
            img.push(0);
            img.push(0);
        }
        img.push(((k as u16) * 255 / 4) as u8);
        p = p + 1;
    }
    img
}

/// A pixel's alpha is one of 0, 63, 127, 191 and 255, and it is 0 exactly
/// when no sample of the pixel is covered.
pub proof fn law_alpha_levels(n: int)
    requires
        0 <= n <= 4,
    ensures
        alpha_of(n) == 0 || alpha_of(n) == 63 || alpha_of(n) == 127 || alpha_of(n) == 191
            || alpha_of(n) == 255,
        alpha_of(n) == 0 <==> n == 0,
        alpha_of(n) == 255 <==> n == 4,
{
}

} // verus!

verus! {

/// The thumbnail of a rendered raster: `hit` holds the `2 * size` by
/// `2 * size` samples row by row, `colours` the colour of each output pixel
/// row by row (used where the pixel has a covered sample). `None` when no
/// sample is covered; otherwise a `size` by `size` RGBA image whose alpha is
/// the coverage of each pixel and whose uncovered pixels are transparent
/// black.
pub fn downsample(hit: &Vec<bool>, size: usize, colours: &Vec<Rgb>) -> (r: Option<Vec<u8>>)
    requires
        hit@.len() == 4 * size * size,
        colours@.len() == size * size,
    ensures
        r is None <==> forall|i: int| 0 <= i < hit@.len() ==> !hit@[i],
        r matches Some(img) ==> {
            &&& img@.len() == 4 * size * size
            &&& forall|y: int, x: int|
                #![trigger pixel_coverage(hit@, size as int, y, x)]
                0 <= y < size && 0 <= x < size ==> {
                    let p = y * size + x;
                    let n = pixel_coverage(hit@, size as int, y, x);
                    let c = colours@[p];
                    &&& img@[4 * p] == (if n > 0 { c.r } else { 0 })
                    &&& img@[4 * p + 1] == (if n > 0 { c.g } else { 0 })
                    &&& img@[4 * p + 2] == (if n > 0 { c.b } else { 0 })
                    &&& img@[4 * p + 3] == alpha_of(n)
                }
        },
{
    let total = hit.len();
    match coverage(hit, size) {
        None => None,
        Some(counts) => {
            proof {
                assert(4 * counts@.len() <= usize::MAX) by (nonlinear_arith)
                    requires
                        counts@.len() == size * size,
                        4 * size * size == total,
                        total <= usize::MAX,
                ;
            }
            let img = compose_rgba(&counts, colours);
            proof {
                assert(img@.len() == 4 * size * size) by (nonlinear_arith)
                    requires
                        img@.len() == 4 * counts@.len(),
                        counts@.len() == size * size,
                ;
                assert forall|y: int, x: int|
                    #![trigger pixel_coverage(hit@, size as int, y, x)]
                    0 <= y < size && 0 <= x < size implies {
                        let p = y * size + x;
                        let n = pixel_coverage(hit@, size as int, y, x);
                        let c = colours@[p];
                        &&& img@[4 * p] == (if n > 0 { c.r } else { 0 })
                        &&& img@[4 * p + 1] == (if n > 0 { c.g } else { 0 })
                        &&& img@[4 * p + 2] == (if n > 0 { c.b } else { 0 })
                        &&& img@[4 * p + 3] == alpha_of(n)
                    } by {
                    assert(0 <= y * size + x < size * size) by (nonlinear_arith)
                        requires
                            0 <= y < size,
                            0 <= x < size,
                    ;
                    assert(counts@[y * size + x] == pixel_coverage(hit@, size as int, y, x));
                }
            }
            Some(img)
        },
    }
}

} // verus!

verus! {

/// Whether the eight exponent bits of a single-precision bit pattern are
/// all ones (an infinity or a NaN, of either sign and any payload).
pub open spec fn exponent_all_ones(b: u32) -> bool {
    (b >> 23) & 0xFF == 0xFF
}

/// A bit pattern counts as finite exactly when its exponent bits are not
/// all ones.
pub proof fn law_finite_means_exponent_not_all_ones(b: u32)
    ensures
        is_finite_bits(b) <==> !exponent_all_ones(b),
{
    assert((b % 0x8000_0000 < 0x7F80_0000) <==> !((b >> 23) & 0xFF == 0xFF)) by (bit_vector);
}

/// A triangle that has an infinity or a NaN among its nine coordinates is
/// dropped; the triangles after it are read as if it were not there.
pub proof fn law_triangle_with_infinity_or_nan_dropped(ps: Seq<Point>)
    requires
        ps.len() >= 3,
        exists|k: int|
            0 <= k < 3 && (exponent_all_ones(#[trigger] ps[k].x) || exponent_all_ones(ps[k].y)
                || exponent_all_ones(ps[k].z)),
    ensures
        finite_triangles(ps) == finite_triangles(ps.skip(3)),
{
    assert forall|k: int| 0 <= k < 3 implies point_finite(#[trigger] ps[k]) == !(
    exponent_all_ones(ps[k].x) || exponent_all_ones(ps[k].y) || exponent_all_ones(ps[k].z)) by {
        law_finite_means_exponent_not_all_ones(ps[k].x);
        law_finite_means_exponent_not_all_ones(ps[k].y);
        law_finite_means_exponent_not_all_ones(ps[k].z);
    }
    assert(!(point_finite(ps[0]) && point_finite(ps[1]) && point_finite(ps[2])));
}

} // verus!
