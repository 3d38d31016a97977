//! The column decomposition of the image.
//!
//! The eye pass splits the image's columns into one contiguous band
//! per worker; the image assembler later maps a column back to the
//! worker that owned it and to the column's offset in that worker's
//! rows. The bands tile the image — every column belongs to exactly
//! one band — and, when the width is a multiple of the worker count,
//! the assembler's mapping agrees with the bands.

use vstd::prelude::*;
use vstd::arithmetic::div_mod::{lemma_div_is_ordered, lemma_div_by_multiple,
    lemma_fundamental_div_mod, lemma_multiply_divide_lt};

verus! {

/// The first column of worker `i`'s band: `width·i/p`.
pub open spec fn band_start(width: int, p: int, i: int) -> int {
    width * i / p
}

/// The half-open column band of worker `i` among `p`.
pub fn band_bounds(width: usize, i: usize, p: usize) -> (b: (usize, usize))
    requires
        0 < p,
        i < p,
        width * p <= usize::MAX,
    ensures
        b.0 == band_start(width as int, p as int, i as int),
        b.1 == band_start(width as int, p as int, i as int + 1),
        b.0 <= b.1 <= width,
{
    proof {
        assert((width as int) * (i as int) <= (width as int) * (i as int + 1) <= (width as int)
            * (p as int)) by (nonlinear_arith)
            requires
                0 <= width as int,
                0 <= i as int,
                i as int + 1 <= p as int,
        ;
        lemma_div_is_ordered((width as int) * (i as int), (width as int) * (i as int + 1), p as int);
        lemma_div_is_ordered((width as int) * (i as int + 1), (width as int) * (p as int), p as int);
        lemma_div_by_multiple(width as int, p as int);
    }
    let begin = width * i / p;
    let end = width * (i + 1) / p;
    (begin, end)
}

/// The bands tile the image: the first band begins at column 0 and
/// the band past the last ends at the image width.
pub proof fn lemma_bands_tile(width: int, p: int)
    requires
        0 < p,
        0 <= width,
    ensures
        band_start(width, p, 0) == 0,
        band_start(width, p, p) == width,
{
    lemma_div_by_multiple(width, p);
    assert(width * p == width * p);
    assert(band_start(width, p, p) == (width * p) / p);
    assert(width * 0 == 0) by (nonlinear_arith);
}

/// Bands come in order: a later band begins no earlier, so a column
/// of band `i` lies before every band after `i` — no column belongs
/// to two bands.
pub proof fn lemma_bands_ordered(width: int, p: int, i: int, j: int)
    requires
        0 < p,
        0 <= width,
        0 <= i <= j,
    ensures
        band_start(width, p, i) <= band_start(width, p, j),
{
    assert(width * i <= width * j) by (nonlinear_arith)
        requires
            0 <= width,
            0 <= i <= j,
    ;
    lemma_div_is_ordered(width * i, width * j, p);
}

/// Every column of the image lies in some band: together with
/// `lemma_bands_ordered` the bands partition the columns.
pub proof fn lemma_bands_cover(width: int, p: int, x: int)
    requires
        0 < p,
        0 <= x < width,
    ensures
        exists|i: int|
            #![trigger band_start(width, p, i)]
            0 <= i < p && band_start(width, p, i) <= x < band_start(width, p, i + 1),
{
    lemma_bands_tile(width, p);
    lemma_cover_rec(width, p, p - 1, x);
}

proof fn lemma_cover_rec(width: int, p: int, k: int, x: int)
    requires
        0 < p,
        0 <= k < p,
        0 <= x < band_start(width, p, k + 1),
    ensures
        exists|i: int|
            #![trigger band_start(width, p, i)]
            0 <= i <= k && band_start(width, p, i) <= x < band_start(width, p, i + 1),
    decreases k,
{
    if band_start(width, p, k) <= x {
        assert(band_start(width, p, k) <= x < band_start(width, p, k + 1));
    } else {
        assert(width * 0 == 0) by (nonlinear_arith);
        assert(band_start(width, p, 0) == 0);
        assert(k > 0);
        lemma_cover_rec(width, p, k - 1, x);
    }
}

/// Where the image assembler finds the pixel of column `x` when the
/// width is a multiple of the worker count: the worker whose rows
/// hold the column and the column's offset in them — the same
/// decomposition the bands make.
pub fn pixel_slot(x: usize, width: usize, p: usize) -> (s: (usize, usize))
    requires
        0 < p,
        x < width,
        width % p == 0,
    ensures
        s.0 == x as int / (width as int / p as int),
        s.1 == x as int % (width as int / p as int),
        s.0 < p,
        s.1 < width / p,
        band_start(width as int, p as int, s.0 as int) <= x < band_start(
            width as int,
            p as int,
            s.0 as int + 1,
        ),
{
    let interval = width / p;
    proof {
        lemma_fundamental_div_mod(width as int, p as int);
        assert(width == p * interval);
        if interval == 0 {
            assert(width as int == (p as int) * 0);
            assert(width == 0) by (nonlinear_arith)
                requires
                    width as int == (p as int) * 0,
            ;
        }
        assert(x < p * interval);
        assert((x as int) < (interval as int) * (p as int)) by (nonlinear_arith)
            requires
                (x as int) < (p as int) * (interval as int),
        ;
        lemma_multiply_divide_lt(x as int, interval as int, p as int);
        lemma_fundamental_div_mod(x as int, interval as int);
    }
    let d1 = x / interval;
    let d2 = x % interval;
    proof {
        let w = width as int;
        let pp = p as int;
        let iv = interval as int;
        let q = d1 as int;
        assert(w * q == (iv * q) * pp) by (nonlinear_arith)
            requires
                w == pp * iv,
        ;
        lemma_div_by_multiple(iv * q, pp);
        assert(band_start(w, pp, q) == iv * q);
        assert(w * (q + 1) == (iv * (q + 1)) * pp) by (nonlinear_arith)
            requires
                w == pp * iv,
        ;
        lemma_div_by_multiple(iv * (q + 1), pp);
        assert(band_start(w, pp, q + 1) == iv * (q + 1));
        assert(x as int == iv * q + d2 as int);
        assert(iv * (q + 1) == iv * q + iv) by (nonlinear_arith);
    }
    (d1, d2)
}

} // verus!
