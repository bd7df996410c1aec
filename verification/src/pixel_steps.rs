//! What a thumbnail is made of, told by the bytes of the buffer.

use crate::pixels::{PixFmt, Source};
use vstd::prelude::*;

verus! {

/// How many bytes a pixel takes.
pub open spec fn pixel_size(fmt: PixFmt) -> int {
    if fmt is Rgb || fmt is Bgr {
        3
    } else {
        4
    }
}

/// Where red (0), green (1) or blue (2) of pixel `sx` of image row `sy` is in
/// the buffer: the rows may be bottom up, and the colours blue first.
pub open spec fn place_of(f: Source, c: int, sx: int, sy: int) -> int {
    let row = if f.y_invert {
        f.h - 1 - sy
    } else {
        sy
    };
    let within = if fmt_is_blue_first(f.fmt) {
        2 - c
    } else {
        c
    };
    row * f.stride + sx * pixel_size(f.fmt) + within
}

/// Whether blue comes first in memory.
pub open spec fn fmt_is_blue_first(fmt: PixFmt) -> bool {
    fmt is Bgra || fmt is Bgr
}

/// Whether the buffer holds every row whole.
pub open spec fn is_whole(f: Source) -> bool {
    &&& 0 < f.w
    &&& 0 < f.h
    &&& f.w * pixel_size(f.fmt) <= f.stride
    &&& f.h * f.stride <= f.bytes.len()
}

/// Whether the middle of source pixel `s` lies within output pixel `o`, where
/// `out` output pixels lie over `len` source pixels.
pub open spec fn lies_within(s: int, o: int, len: int, out: int) -> bool {
    2 * o * len <= (2 * s + 1) * out < 2 * (o + 1) * len
}

proof fn lemma_whole_buffers_hold_every_pixel(f: Source, sx: int, sy: int)
    requires
        is_whole(f),
        0 <= sx < f.w,
        0 <= sy < f.h,
    ensures
        f.holds(sx, sy),
{
    let row = f.buffer_row(sy);
    let b = pixel_size(f.fmt);
    assert(row * f.stride + sx * b + b <= f.bytes.len()) by (nonlinear_arith)
        requires
            0 <= row < f.h,
            0 <= sx < f.w,
            b > 0,
            f.w * b <= f.stride,
            f.h * f.stride <= f.bytes.len(),
    ;
}

/// Blocks add up: a block counts and sums what its parts do, however it is cut.
pub proof fn law_blocks_add_up(
    f: Source,
    c: int,
    x0: int,
    xm: int,
    x1: int,
    y0: int,
    ym: int,
    y1: int,
)
    requires
        x0 <= xm <= x1,
        y0 <= ym <= y1,
    ensures
        f.block_count(x0, x1, y0, y1) == f.block_count(x0, x1, y0, ym) + f.block_count(
            x0,
            x1,
            ym,
            y1,
        ),
        f.block_count(x0, x1, y0, y1) == f.block_count(x0, xm, y0, y1) + f.block_count(
            xm,
            x1,
            y0,
            y1,
        ),
        f.block_sum(c, x0, x1, y0, y1) == f.block_sum(c, x0, x1, y0, ym) + f.block_sum(
            c,
            x0,
            x1,
            ym,
            y1,
        ),
        f.block_sum(c, x0, x1, y0, y1) == f.block_sum(c, x0, xm, y0, y1) + f.block_sum(
            c,
            xm,
            x1,
            y0,
            y1,
        ),
    decreases y1 - y0,
{
    if y0 < y1 {
        let last = y1 - 1;
        lemma_rows_add_up(f, c, last, x0, xm, x1);
        if ym < y1 {
            law_blocks_add_up(f, c, x0, xm, x1, y0, ym, last);
        } else {
            law_blocks_add_up(f, c, x0, xm, x1, y0, last, last);
        }
    }
}

proof fn lemma_rows_add_up(f: Source, c: int, sy: int, x0: int, xm: int, x1: int)
    requires
        x0 <= xm <= x1,
    ensures
        f.row_count(sy, x0, x1) == f.row_count(sy, x0, xm) + f.row_count(sy, xm, x1),
        f.row_sum(c, sy, x0, x1) == f.row_sum(c, sy, x0, xm) + f.row_sum(c, sy, xm, x1),
    decreases x1 - xm,
{
    if xm < x1 {
        lemma_rows_add_up(f, c, sy, x0, xm, x1 - 1);
    }
}

/// A block of one pixel counts and sums that pixel, if the buffer holds it
/// whole, and nothing if it does not.
pub proof fn law_a_pixel_counts_as_itself(f: Source, c: int, sx: int, sy: int)
    requires
        0 <= c < 3,
    ensures
        ({
            let ends = place_of(f, c, sx, sy) - (if fmt_is_blue_first(f.fmt) {
                2 - c
            } else {
                c
            }) + pixel_size(f.fmt);
            let n = f.block_count(sx, sx + 1, sy, sy + 1);
            let sum = f.block_sum(c, sx, sx + 1, sy, sy + 1);
            if ends <= f.bytes.len() {
                n == 1 && sum == f.bytes[place_of(f, c, sx, sy)]
            } else {
                n == 0 && sum == 0
            }
        }),
{
    reveal_with_fuel(Source::row_count, 2);
    reveal_with_fuel(Source::row_sum, 2);
    reveal_with_fuel(Source::block_count, 2);
    reveal_with_fuel(Source::block_sum, 2);
}

/// The mean of a block is its sum over its count, to the nearest, and up from
/// the middle.
pub proof fn law_the_mean_is_to_the_nearest(f: Source, c: int, x0: int, x1: int, y0: int, y1: int)
    ensures
        ({
            let n = f.block_count(x0, x1, y0, y1);
            let sum = f.block_sum(c, x0, x1, y0, y1);
            let mean = f.block_mean(c, x0, x1, y0, y1);
            &&& n > 0 ==> 2 * (mean * n - sum) <= n && 2 * (sum - mean * n) < n
            &&& n == 0 ==> mean == 0
        }),
{
    let n = f.block_count(x0, x1, y0, y1);
    let sum = f.block_sum(c, x0, x1, y0, y1);
    crate::pixels::lemma_block_bounds(f, c, x0, x1, y0, y1);
    if n > 0 {
        let q = (sum + n / 2) / n;
        vstd::arithmetic::div_mod::lemma_fundamental_div_mod(sum + n / 2, n);
        vstd::arithmetic::div_mod::lemma_mod_bound(sum + n / 2, n);
        assert(n * q == q * n) by (nonlinear_arith);
    }
}

/// Whether `from..to` is what output pixel `o` is made of: the source pixels
/// whose middles lie within it, or, if none does, the one that it begins on.
pub open spec fn is_share(from: int, to: int, o: int, len: int, out: int) -> bool {
    if exists|s: int| #[trigger] lies_within(s, o, len, out) {
        forall|s: int| from <= s < to <==> #[trigger] lies_within(s, o, len, out)
    } else {
        from == o * len / out && to == from + 1
    }
}

proof fn lemma_share(from: int, to: int, o: int, len: int, out: int)
    requires
        0 < out,
        is_share(from, to, o, len, out),
    ensures
        crate::pixels::bucket_start(o, len, out) == from,
        crate::pixels::bucket_end(o, len, out) == to,
{
    let a = crate::pixels::bucket_start(o, len, out);
    let b = crate::pixels::bucket_end(o, len, out);
    let first = crate::pixels::first_centre(o, len, out);
    crate::pixels::lemma_first_centre(first, o, len, out);
    crate::pixels::lemma_first_centre(first, o + 1, len, out);
    if exists|s: int| #[trigger] lies_within(s, o, len, out) {
        let t = choose|s: int| #[trigger] lies_within(s, o, len, out);
        assert forall|s: int| a <= s < b <==> lies_within(s, o, len, out) by {
            crate::pixels::law_a_bucket_holds_the_centres_in_it(s, t, o, len, out);
        }
        assert(a <= t < b);
        assert(lies_within(a, o, len, out) && lies_within(b - 1, o, len, out));
        assert(!lies_within(a - 1, o, len, out) && !lies_within(b, o, len, out));
        assert(from <= a && b <= to);
        if from < a {
            assert(lies_within(a - 1, o, len, out));
        }
        if b < to {
            assert(lies_within(b, o, len, out));
        }
    } else {
        assert(!lies_within(first, o, len, out));
    }
}

proof fn lemma_bucket_is_share(s: int, o: int, len: int, out: int)
    requires
        0 < out <= len,
    ensures
        crate::pixels::bucket_start(o, len, out) <= s < crate::pixels::bucket_end(o, len, out)
            <==> lies_within(s, o, len, out),
{
    let a = crate::pixels::bucket_start(o, len, out);
    crate::pixels::law_every_pixel_counts_once(0, o, len, out);
    crate::pixels::lemma_first_centre(a, o, len, out);
    crate::pixels::lemma_first_centre(a, o + 1, len, out);
    crate::pixels::law_a_bucket_holds_the_centres_in_it(s, a, o, len, out);
}

/// A colour of a thumbnail pixel is the mean over the source pixels that it is
/// made of.
pub proof fn law_a_thumbnail_pixel_is_the_mean_of_its_share(
    f: Source,
    ox: int,
    oy: int,
    out_w: int,
    out_h: int,
    c: int,
    x0: int,
    x1: int,
    y0: int,
    y1: int,
)
    requires
        0 < f.w,
        0 < f.h,
        0 <= ox < out_w,
        0 <= oy < out_h,
        0 <= c < 3,
        is_share(x0, x1, ox, f.w, out_w),
        is_share(y0, y1, oy, f.h, out_h),
    ensures
        f.thumbnail(out_w, out_h).len() == out_w * out_h * 4,
        0 <= (oy * out_w + ox) * 4 + 3 < out_w * out_h * 4,
        f.thumbnail(out_w, out_h)[(oy * out_w + ox) * 4 + c] == f.block_mean(c, x0, x1, y0, y1),
        f.thumbnail(out_w, out_h)[(oy * out_w + ox) * 4 + 3] == 255,
{
    lemma_share(x0, x1, ox, f.w, out_w);
    lemma_share(y0, y1, oy, f.h, out_h);
    lemma_thumbnail_at(f, ox, oy, out_w, out_h, c);
    lemma_thumbnail_at(f, ox, oy, out_w, out_h, 3);
    crate::pixels::lemma_block_bounds(f, c, x0, x1, y0, y1);
}

pub(crate) proof fn lemma_thumbnail_at(f: Source, ox: int, oy: int, out_w: int, out_h: int, c: int)
    requires
        0 <= ox < out_w,
        0 <= oy < out_h,
        0 <= c < 4,
    ensures
        f.thumbnail(out_w, out_h).len() == out_w * out_h * 4,
        0 <= (oy * out_w + ox) * 4 + c < out_w * out_h * 4,
        f.thumbnail(out_w, out_h)[(oy * out_w + ox) * 4 + c] == f.thumbnail_byte(
            ox,
            oy,
            out_w,
            out_h,
            c,
        ) as u8,
{
    let q = oy * out_w + ox;
    let k = q * 4 + c;
    assert(0 <= q < out_w * out_h) by (nonlinear_arith)
        requires
            q == oy * out_w + ox,
            0 <= ox < out_w,
            0 <= oy < out_h,
    ;
    assert(k / 4 == q && k % 4 == c);
    vstd::arithmetic::div_mod::lemma_fundamental_div_mod_converse(q, out_w, oy, ox);
    assert(0 <= out_w * out_h * 4);
}

/// A thumbnail shows what the buffer holds: if the bytes of a colour of all
/// pixels whose middles lie within an output pixel are between two values, so
/// is that colour of the output pixel.
pub proof fn law_a_thumbnail_pixel_shows_its_share(
    f: Source,
    ox: int,
    oy: int,
    out_w: int,
    out_h: int,
    c: int,
    lo: int,
    hi: int,
)
    requires
        is_whole(f),
        0 <= ox < out_w <= f.w,
        0 <= oy < out_h <= f.h,
        f.w <= 0xffff_ffff,
        f.h <= 0xffff_ffff,
        0 <= c < 3,
        forall|sx: int, sy: int|
            0 <= sx < f.w && 0 <= sy < f.h && lies_within(sx, ox, f.w, out_w) && lies_within(
                sy,
                oy,
                f.h,
                out_h,
            ) ==> lo <= f.bytes[#[trigger] place_of(f, c, sx, sy)] <= hi,
    ensures
        lo <= f.thumbnail(out_w, out_h)[(oy * out_w + ox) * 4 + c] <= hi,
{
    let x0 = crate::pixels::bucket_start(ox, f.w, out_w);
    let x1 = crate::pixels::bucket_end(ox, f.w, out_w);
    let y0 = crate::pixels::bucket_start(oy, f.h, out_h);
    let y1 = crate::pixels::bucket_end(oy, f.h, out_h);
    assert forall|s: int| x0 <= s < x1 <==> #[trigger] lies_within(s, ox, f.w, out_w) by {
        lemma_bucket_is_share(s, ox, f.w, out_w);
    }
    assert forall|s: int| y0 <= s < y1 <==> #[trigger] lies_within(s, oy, f.h, out_h) by {
        lemma_bucket_is_share(s, oy, f.h, out_h);
    }
    crate::pixels::lemma_bucket_bounds(ox, f.w, out_w);
    crate::pixels::lemma_bucket_bounds(oy, f.h, out_h);
    assert(lies_within(x0, ox, f.w, out_w) && lies_within(y0, oy, f.h, out_h));
    law_a_thumbnail_pixel_is_the_mean_of_its_share(f, ox, oy, out_w, out_h, c, x0, x1, y0, y1);
    assert forall|sx: int, sy: int|
        x0 <= sx < x1 && y0 <= sy < y1 && #[trigger] f.holds(sx, sy) implies lo <= f.channel(
        c,
        sx,
        sy,
    ) <= hi by {
        assert(lies_within(sx, ox, f.w, out_w) && lies_within(sy, oy, f.h, out_h));
        assert(lo <= f.bytes[place_of(f, c, sx, sy)] <= hi);
    }
    lemma_whole_buffers_hold_every_pixel(f, x0, y0);
    law_blocks_add_up(f, c, x0, x0 + 1, x1, y0, y0 + 1, y1);
    law_blocks_add_up(f, c, x0, x0 + 1, x1, y0, y0 + 1, y0 + 1);
    law_a_pixel_counts_as_itself(f, c, x0, y0);
    crate::pixels::lemma_block_bounds(f, c, x0, x1, y0 + 1, y1);
    crate::pixels::lemma_block_bounds(f, c, x0 + 1, x1, y0, y0 + 1);
    crate::pixels::law_a_mean_lies_between_its_pixels(f, c, x0, x1, y0, y1, lo, hi);
}

/// A thumbnail is as wide as was asked for, but never wider than its source and
/// never without a column; its height is to the nearest row, and up from the
/// middle.
pub proof fn law_thumbnails_are_as_wide_as_asked(w: int, h: int, target_w: int)
    requires
        0 < w <= 0xffff_ffff,
        0 < h <= 0xffff_ffff,
    ensures
        ({
            let out_w = crate::pixels::thumb_width_of(w, target_w);
            let out_h = crate::pixels::thumb_height_of(w, h, out_w);
            &&& 1 <= target_w <= w ==> out_w == target_w
            &&& target_w >= w ==> out_w == w
            &&& target_w < 1 ==> out_w == 1
            &&& out_h > 1 ==> 2 * (out_h * w - h * out_w) <= w
            &&& out_h >= 1 && 2 * (h * out_w - out_h * w) < w
        }),
{
    let out_w = crate::pixels::thumb_width_of(w, target_w);
    let a = h * out_w + w / 2;
    let q = a / w;
    vstd::arithmetic::div_mod::lemma_fundamental_div_mod(a, w);
    vstd::arithmetic::div_mod::lemma_mod_bound(a, w);
    assert(w * q == q * w) by (nonlinear_arith);
    assert(1int * w == w);
    if q < 1 {
        assert(q * w <= 0) by (nonlinear_arith)
            requires
                q < 1,
                w > 0,
        ;
    }
}

/// An image without a pixel gives a thumbnail of zeros.
pub proof fn law_nothing_gives_zeros(f: Source, out_w: int, out_h: int, k: int)
    requires
        f.w == 0 || f.h == 0,
        0 <= k < f.thumbnail(out_w, out_h).len(),
    ensures
        f.thumbnail(out_w, out_h)[k] == 0,
{
}

} // verus!
