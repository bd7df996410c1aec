//! From a captured screen buffer to a thumbnail: pixel formats, the size of
//! the thumbnail, and the conversion itself.

use vstd::prelude::*;

verus! {

/// The shared-memory formats a compositor may offer, as far as they matter
/// here. `Other` carries the wire number of any format without a name below.
#[derive(Debug, Clone, Copy, PartialEq, Eq, Structural)]
pub enum ShmFormat {
    Argb8888,
    Xrgb8888,
    Abgr8888,
    Xbgr8888,
    Bgr888,
    Rgb888,
    Other(u32),
}

/// The formats we can convert to straight RGBA8.
///
/// 32-bit formats are little-endian packed words, so the byte order in memory
/// is the reverse of the name: `xrgb8888` is `[B, G, R, X]`.
#[derive(Debug, Clone, Copy, PartialEq, Eq, Structural)]
pub enum PixFmt {
    /// memory order B, G, R, A (xrgb8888 / argb8888)
    Bgra,
    /// memory order R, G, B, A (xbgr8888 / abgr8888)
    Rgba,
    /// memory order R, G, B, 3 bytes per pixel (bgr888)
    Rgb,
    /// memory order B, G, R, 3 bytes per pixel (rgb888)
    Bgr,
}

/// How a format lays its bytes out, if it is one we can convert.
pub open spec fn layout_of(f: ShmFormat) -> Option<PixFmt> {
    match f {
        ShmFormat::Xrgb8888 => Some(PixFmt::Bgra),
        ShmFormat::Argb8888 => Some(PixFmt::Bgra),
        ShmFormat::Xbgr8888 => Some(PixFmt::Rgba),
        ShmFormat::Abgr8888 => Some(PixFmt::Rgba),
        ShmFormat::Bgr888 => Some(PixFmt::Rgb),
        ShmFormat::Rgb888 => Some(PixFmt::Bgr),
        ShmFormat::Other(_) => None,
    }
}

pub open spec fn bytes_per_pixel(f: PixFmt) -> int {
    match f {
        PixFmt::Bgra => 4,
        PixFmt::Rgba => 4,
        PixFmt::Rgb => 3,
        PixFmt::Bgr => 3,
    }
}

/// Where channel `c` (0 red, 1 green, 2 blue) sits inside one source pixel.
pub open spec fn channel_offset(f: PixFmt, c: int) -> int {
    match f {
        PixFmt::Bgra => 2 - c,
        PixFmt::Bgr => 2 - c,
        PixFmt::Rgba => c,
        PixFmt::Rgb => c,
    }
}

impl PixFmt {
    /// The layout of a compositor format; `None` for one we cannot convert.
    pub fn from_wl(f: ShmFormat) -> (r: Option<PixFmt>)
        ensures
            r == layout_of(f),
    {
        match f {
            ShmFormat::Xrgb8888 | ShmFormat::Argb8888 => Some(PixFmt::Bgra),
            ShmFormat::Xbgr8888 | ShmFormat::Abgr8888 => Some(PixFmt::Rgba),
            ShmFormat::Bgr888 => Some(PixFmt::Rgb),
            ShmFormat::Rgb888 => Some(PixFmt::Bgr),
            ShmFormat::Other(_) => None,
        }
    }

    /// Bytes per pixel in the source buffer.
    pub fn bpp(self) -> (r: usize)
        ensures
            r == bytes_per_pixel(self),
    {
        match self {
            PixFmt::Bgra | PixFmt::Rgba => 4,
            PixFmt::Rgb | PixFmt::Bgr => 3,
        }
    }

    /// (red, green, blue) byte offsets inside one source pixel.
    pub fn offsets(self) -> (r: (usize, usize, usize))
        ensures
            r.0 == channel_offset(self, 0),
            r.1 == channel_offset(self, 1),
            r.2 == channel_offset(self, 2),
    {
        match self {
            PixFmt::Bgra | PixFmt::Bgr => (2, 1, 0),
            PixFmt::Rgba | PixFmt::Rgb => (0, 1, 2),
        }
    }
}

// -------------------------------------------------------------- dimensions --

pub open spec fn thumb_width_of(w: int, target_w: int) -> int {
    let t = if target_w < 1 {
        1
    } else {
        target_w
    };
    if t < w {
        t
    } else {
        w
    }
}

/// The height that keeps the aspect ratio at width `out_w`, rounded to the
/// nearest row and never less than one.
pub open spec fn thumb_height_of(w: int, h: int, out_w: int) -> int {
    let rounded = (h * out_w + w / 2) / w;
    if rounded < 1 {
        1
    } else {
        rounded
    }
}

proof fn lemma_thumb_height_fits(w: int, h: int, out_w: int)
    requires
        0 < w <= 0xffff_ffff,
        0 < h <= 0xffff_ffff,
        0 < out_w <= w,
    ensures
        0 <= h * out_w <= 0xffff_ffff * 0xffff_ffff,
        0 <= (h * out_w + w / 2) / w <= h,
{
    assert(0 <= h * out_w <= 0xffff_ffff * 0xffff_ffff && h * out_w <= h * w) by (nonlinear_arith)
        requires
            0 < w <= 0xffff_ffff,
            0 < h <= 0xffff_ffff,
            0 < out_w <= w,
    ;
    assert((h * out_w + w / 2) / w <= h) by (nonlinear_arith)
        requires
            h * out_w <= h * w,
            w > 0,
            h > 0,
    ;
    assert(0 <= (h * out_w + w / 2) / w) by (nonlinear_arith)
        requires
            h * out_w >= 0,
            w > 0,
    ;
}

/// Thumbnail size for a `w`x`h` source at target width `target_w`, keeping the
/// aspect ratio and never upscaling. An empty source has an empty thumbnail.
pub fn thumb_size(w: u32, h: u32, target_w: u32) -> (r: (u32, u32))
    ensures
        w == 0 || h == 0 ==> r == (0u32, 0u32),
        w != 0 && h != 0 ==> r.0 == thumb_width_of(w as int, target_w as int) && r.1
            == thumb_height_of(w as int, h as int, r.0 as int) && 1 <= r.0 <= w && 1 <= r.1 <= h,
{
    if w == 0 || h == 0 {
        return (0, 0);
    }
    let t: u32 = if target_w < 1 {
        1
    } else {
        target_w
    };
    let out_w: u32 = if t < w {
        t
    } else {
        w
    };
    proof {
        lemma_thumb_height_fits(w as int, h as int, out_w as int);
    }
    let rounded: u64 = (h as u64 * out_w as u64 + w as u64 / 2) / w as u64;
    let out_h: u32 = if rounded < 1 {
        1
    } else {
        rounded as u32
    };
    (out_w, out_h)
}

// -------------------------------------------------------------- conversion --

/// A captured buffer: `h` rows of `stride` bytes, each holding `w` pixels.
pub ghost struct Source {
    pub bytes: Seq<u8>,
    pub w: int,
    pub h: int,
    pub stride: int,
    pub fmt: PixFmt,
    pub y_invert: bool,
}

impl Source {
    /// The buffer row that holds image row `sy`.
    pub open spec fn buffer_row(self, sy: int) -> int {
        if self.y_invert {
            self.h - 1 - sy
        } else {
            sy
        }
    }

    /// Position of the first byte of pixel `sx` of image row `sy`.
    pub open spec fn position(self, sx: int, sy: int) -> int {
        self.buffer_row(sy) * self.stride + sx * bytes_per_pixel(self.fmt)
    }

    /// Whether the buffer holds that pixel whole; one it does not is skipped.
    pub open spec fn holds(self, sx: int, sy: int) -> bool {
        self.position(sx, sy) + bytes_per_pixel(self.fmt) <= self.bytes.len()
    }

    /// Channel `c` of a pixel that the buffer holds.
    pub open spec fn channel(self, c: int, sx: int, sy: int) -> int {
        self.bytes[self.position(sx, sy) + channel_offset(self.fmt, c)] as int
    }

    /// How many pixels of `x0..x1` in image row `sy` the buffer holds.
    pub open spec fn row_count(self, sy: int, x0: int, x1: int) -> int
        decreases x1 - x0,
    {
        if x1 <= x0 {
            0
        } else {
            self.row_count(sy, x0, x1 - 1) + if self.holds(x1 - 1, sy) {
                1int
            } else {
                0
            }
        }
    }

    /// The sum of channel `c` over those pixels.
    pub open spec fn row_sum(self, c: int, sy: int, x0: int, x1: int) -> int
        decreases x1 - x0,
    {
        if x1 <= x0 {
            0
        } else {
            self.row_sum(c, sy, x0, x1 - 1) + if self.holds(x1 - 1, sy) {
                self.channel(c, x1 - 1, sy)
            } else {
                0
            }
        }
    }

    /// How many pixels of the block `x0..x1` by `y0..y1` the buffer holds.
    pub open spec fn block_count(self, x0: int, x1: int, y0: int, y1: int) -> int
        decreases y1 - y0,
    {
        if y1 <= y0 {
            0
        } else {
            self.block_count(x0, x1, y0, y1 - 1) + self.row_count(y1 - 1, x0, x1)
        }
    }

    /// The sum of channel `c` over those pixels.
    pub open spec fn block_sum(self, c: int, x0: int, x1: int, y0: int, y1: int) -> int
        decreases y1 - y0,
    {
        if y1 <= y0 {
            0
        } else {
            self.block_sum(c, x0, x1, y0, y1 - 1) + self.row_sum(c, y1 - 1, x0, x1)
        }
    }

    /// The mean of channel `c` over a block, rounded to nearest; 0 when the
    /// buffer holds none of it.
    pub open spec fn block_mean(self, c: int, x0: int, x1: int, y0: int, y1: int) -> int {
        let n = self.block_count(x0, x1, y0, y1);
        if n == 0 {
            0
        } else {
            (self.block_sum(c, x0, x1, y0, y1) + n / 2) / n
        }
    }

    /// Byte `c` (red, green, blue, alpha) of pixel (`ox`, `oy`) of the
    /// `out_w` x `out_h` thumbnail: the mean over the pixel's bucket of source
    /// pixels, and always opaque. An empty source gives zeros.
    pub open spec fn thumbnail_byte(
        self,
        ox: int,
        oy: int,
        out_w: int,
        out_h: int,
        c: int,
    ) -> int {
        if self.w == 0 || self.h == 0 {
            0
        } else if c == 3 {
            255
        } else {
            self.block_mean(
                c,
                bucket_start(ox, self.w, out_w),
                bucket_end(ox, self.w, out_w),
                bucket_start(oy, self.h, out_h),
                bucket_end(oy, self.h, out_h),
            )
        }
    }

    /// The bytes of the whole `out_w` x `out_h` thumbnail.
    pub open spec fn thumbnail(self, out_w: int, out_h: int) -> Seq<u8> {
        Seq::new(
            (out_w * out_h * 4) as nat,
            |k: int|
                self.thumbnail_byte((k / 4) % out_w, (k / 4) / out_w, out_w, out_h, k % 4) as u8,
        )
    }
}

/// The centre of source pixel `s`, in units of half a source pixel by `out`.
pub open spec fn centre(s: int, out: int) -> int {
    (2 * s + 1) * out
}

/// Where output pixel `o` begins on a line of `len` source pixels, and its
/// forerunner ends, in the same units.
pub open spec fn edge(o: int, len: int) -> int {
    2 * o * len
}

/// Whether the centre of source pixel `s` falls in the bucket of output pixel
/// `o`.
pub open spec fn falls_to(s: int, o: int, len: int, out: int) -> bool {
    edge(o, len) <= centre(s, out) < edge(o + 1, len)
}

/// The first source pixel whose centre is not before that edge.
pub open spec fn first_centre(o: int, len: int, out: int) -> int {
    (edge(o, len) + out - 1) / (2 * out)
}

/// Whether any centre falls in the bucket of output pixel `o`. It does unless
/// there are more output than source pixels.
pub open spec fn has_a_centre(o: int, len: int, out: int) -> bool {
    first_centre(o, len, out) < first_centre(o + 1, len, out)
}

/// The first of `len` source pixels that falls to output pixel `o` of `out`:
/// those fall to it whose centres do. An output pixel that gets none this way
/// takes the one that it begins on.
pub open spec fn bucket_start(o: int, len: int, out: int) -> int {
    if has_a_centre(o, len, out) {
        first_centre(o, len, out)
    } else {
        o * len / out
    }
}

/// One past the last of them. A bucket is never empty.
pub open spec fn bucket_end(o: int, len: int, out: int) -> int {
    if has_a_centre(o, len, out) {
        first_centre(o + 1, len, out)
    } else {
        o * len / out + 1
    }
}

proof fn lemma_centres_go_up(s: int, t: int, out: int)
    requires
        s <= t,
        0 < out,
    ensures
        centre(s, out) <= centre(t, out),
        s < t ==> centre(s, out) < centre(t, out),
{
    assert((2 * s + 1) * out <= (2 * t + 1) * out && (s < t ==> (2 * s + 1) * out < (2 * t + 1)
        * out)) by (nonlinear_arith)
        requires
            s <= t,
            0 < out,
    ;
}

/// The pixels from the first centre on are those whose centres are not before
/// the edge.
pub proof fn lemma_first_centre(s: int, o: int, len: int, out: int)
    requires
        0 < out,
    ensures
        first_centre(o, len, out) <= s <==> edge(o, len) <= centre(s, out),
{
    let q = first_centre(o, len, out);
    let e = edge(o, len);
    vstd::arithmetic::div_mod::lemma_fundamental_div_mod(e + out - 1, 2 * out);
    vstd::arithmetic::div_mod::lemma_mod_bound(e + out - 1, 2 * out);
    assert(centre(q, out) == 2 * out * q + out && centre(q - 1, out) == 2 * out * q - out)
        by (nonlinear_arith);
    assert(centre(q - 1, out) < e <= centre(q, out));
    if q <= s {
        lemma_centres_go_up(q, s, out);
    } else {
        lemma_centres_go_up(s, q - 1, out);
    }
}

proof fn lemma_first_centre_bounds(o: int, len: int, out: int)
    requires
        0 <= o <= out <= 0xffff_ffff,
        0 < out,
        0 < len <= 0xffff_ffff,
    ensures
        0 <= edge(o, len) <= 2 * 0xffff_ffff * 0xffff_ffff,
        0 <= first_centre(o, len, out) <= len,
{
    assert(0 <= edge(o, len) <= 2 * 0xffff_ffff * 0xffff_ffff && edge(o, len) <= 2 * out * len
        && edge(o, len) <= centre(len, out) && centre(-1, out) < 0) by (nonlinear_arith)
        requires
            0 <= o <= out <= 0xffff_ffff,
            0 < out,
            0 < len <= 0xffff_ffff,
            edge(o, len) == 2 * o * len,
            centre(len, out) == (2 * len + 1) * out,
            centre(-1, out) == (2 * -1 + 1) * out,
    ;
    lemma_first_centre(len, o, len, out);
    lemma_first_centre(-1, o, len, out);
}

pub proof fn lemma_bucket_bounds(o: int, len: int, out: int)
    requires
        0 <= o < out <= 0xffff_ffff,
        0 < len <= 0xffff_ffff,
    ensures
        0 <= bucket_start(o, len, out) < bucket_end(o, len, out) <= len,
{
    lemma_first_centre_bounds(o, len, out);
    lemma_first_centre_bounds(o + 1, len, out);
    assert(0 <= o * len / out < len) by (nonlinear_arith)
        requires
            0 <= o < out,
            0 < len,
    ;
}

fn find_first_centre(o: u64, len: u32, out: u32) -> (r: u32)
    requires
        o <= out,
        0 < out,
        0 < len,
    ensures
        r == first_centre(o as int, len as int, out as int),
        r <= len,
{
    proof {
        lemma_first_centre_bounds(o as int, len as int, out as int);
        assert(0 <= o * len && 2 * (o * len) == 2 * o * len) by (nonlinear_arith)
            requires
                0 <= o,
                0 <= len,
        ;
    }
    let at: u128 = 2 * (o as u128 * len as u128);
    ((at + out as u128 - 1) / (2 * out as u128)) as u32
}

/// The bucket of source pixels of one output pixel.
fn bucket(o: u32, len: u32, out: u32) -> (r: (u32, u32))
    requires
        o < out,
        0 < len,
    ensures
        r.0 == bucket_start(o as int, len as int, out as int),
        r.1 == bucket_end(o as int, len as int, out as int),
        r.0 < r.1 <= len,
{
    proof {
        lemma_bucket_bounds(o as int, len as int, out as int);
    }
    let lo: u32 = find_first_centre(o as u64, len, out);
    let hi: u32 = find_first_centre(o as u64 + 1, len, out);
    if lo < hi {
        (lo, hi)
    } else {
        proof {
            assert(0 <= o * len <= 0xffff_ffff * 0xffff_ffff) by (nonlinear_arith)
                requires
                    0 <= o <= 0xffff_ffff,
                    0 <= len <= 0xffff_ffff,
            ;
        }
        let at: u32 = (o as u64 * len as u64 / out as u64) as u32;
        (at, at + 1)
    }
}

proof fn lemma_row_bounds(f: Source, c: int, sy: int, x0: int, x1: int)
    ensures
        0 <= f.row_count(sy, x0, x1),
        x0 <= x1 ==> f.row_count(sy, x0, x1) <= x1 - x0,
        0 <= f.row_sum(c, sy, x0, x1) <= 255 * f.row_count(sy, x0, x1),
    decreases x1 - x0,
{
    if x0 < x1 {
        lemma_row_bounds(f, c, sy, x0, x1 - 1);
    }
}

/// A block's channel sum is at most 255 for every pixel it counts, so its mean
/// is a byte.
pub proof fn lemma_block_bounds(f: Source, c: int, x0: int, x1: int, y0: int, y1: int)
    ensures
        0 <= f.block_count(x0, x1, y0, y1),
        0 <= f.block_sum(c, x0, x1, y0, y1) <= 255 * f.block_count(x0, x1, y0, y1),
        0 <= f.block_mean(c, x0, x1, y0, y1) <= 255,
    decreases y1 - y0,
{
    if y0 < y1 {
        lemma_block_bounds(f, c, x0, x1, y0, y1 - 1);
        lemma_row_bounds(f, c, y1 - 1, x0, x1);
    }
    let n = f.block_count(x0, x1, y0, y1);
    let s = f.block_sum(c, x0, x1, y0, y1);
    if n > 0 {
        assert(0 <= (s + n / 2) / n <= 255) by (nonlinear_arith)
            requires
                0 < n,
                0 <= s <= 255 * n,
        ;
    }
}

/// One thumbnail pixel: the (red, green, blue) mean over a block.
fn mean_of_block(
    src: &[u8],
    w: u32,
    h: u32,
    stride: u32,
    fmt: PixFmt,
    y_invert: bool,
    xs: (u32, u32),
    ys: (u32, u32),
) -> (r: (u8, u8, u8))
    requires
        xs.0 <= xs.1 <= w,
        ys.0 <= ys.1 <= h,
    ensures
        ({
            let f = Source {
                bytes: src@,
                w: w as int,
                h: h as int,
                stride: stride as int,
                fmt,
                y_invert,
            };
            &&& r.0 == f.block_mean(0, xs.0 as int, xs.1 as int, ys.0 as int, ys.1 as int)
            &&& r.1 == f.block_mean(1, xs.0 as int, xs.1 as int, ys.0 as int, ys.1 as int)
            &&& r.2 == f.block_mean(2, xs.0 as int, xs.1 as int, ys.0 as int, ys.1 as int)
        }),
{
    let ghost f = Source {
        bytes: src@,
        w: w as int,
        h: h as int,
        stride: stride as int,
        fmt,
        y_invert,
    };
    let (ro, go, bo) = fmt.offsets();
    let bpp: usize = fmt.bpp();
    let (x0, x1) = xs;
    let (y0, y1) = ys;
    let ghost (gx0, gx1, gy0) = (x0 as int, x1 as int, y0 as int);
    let mut rs: u128 = 0;
    let mut gs: u128 = 0;
    let mut bs: u128 = 0;
    let mut n: u128 = 0;
    for sy in y0..y1
        invariant
            y0 <= y1 <= h,
            x0 <= x1 <= w,
            gx0 == x0,
            gx1 == x1,
            gy0 == y0,
            f == (Source {
                bytes: src@,
                w: w as int,
                h: h as int,
                stride: stride as int,
                fmt,
                y_invert,
            }),
            ro == channel_offset(fmt, 0),
            go == channel_offset(fmt, 1),
            bo == channel_offset(fmt, 2),
            bpp == bytes_per_pixel(fmt),
            n == f.block_count(gx0, gx1, gy0, sy as int),
            rs == f.block_sum(0, gx0, gx1, gy0, sy as int),
            gs == f.block_sum(1, gx0, gx1, gy0, sy as int),
            bs == f.block_sum(2, gx0, gx1, gy0, sy as int),
            n <= (sy - y0) * 0x1_0000_0000,
            rs <= 255 * n,
            gs <= 255 * n,
            bs <= 255 * n,
    {
        let real_y: u32 = if y_invert {
            h - 1 - sy
        } else {
            sy
        };
        assert(real_y == f.buffer_row(sy as int));
        proof {
            assert(0 <= real_y * stride <= 0xffff_ffff * 0xffff_ffff) by (nonlinear_arith)
                requires
                    0 <= real_y <= 0xffff_ffff,
                    0 <= stride <= 0xffff_ffff,
            ;
        }
        let row: u128 = real_y as u128 * stride as u128;
        let ghost (n0, r0, g0, b0) = (n as int, rs as int, gs as int, bs as int);
        for sx in x0..x1
            invariant
                sy < y1,
                y0 <= sy,
                y1 <= h,
                x0 <= x1 <= w,
                gx0 == x0,
                f == (Source {
                    bytes: src@,
                    w: w as int,
                    h: h as int,
                    stride: stride as int,
                    fmt,
                    y_invert,
                }),
                ro == channel_offset(fmt, 0),
                go == channel_offset(fmt, 1),
                bo == channel_offset(fmt, 2),
                bpp == bytes_per_pixel(fmt),
                row == f.buffer_row(sy as int) * stride,
                row <= 0xffff_ffff * 0xffff_ffff,
                n == n0 + f.row_count(sy as int, gx0, sx as int),
                rs == r0 + f.row_sum(0, sy as int, gx0, sx as int),
                gs == g0 + f.row_sum(1, sy as int, gx0, sx as int),
                bs == b0 + f.row_sum(2, sy as int, gx0, sx as int),
                n0 <= (sy - y0) * 0x1_0000_0000,
                n <= (sy - y0) * 0x1_0000_0000 + (sx - x0),
                r0 <= 255 * n0,
                g0 <= 255 * n0,
                b0 <= 255 * n0,
                rs <= 255 * n,
                gs <= 255 * n,
                bs <= 255 * n,
        {
            proof {
                assert(0 <= sx * bpp <= 4 * 0xffff_ffff) by (nonlinear_arith)
                    requires
                        0 <= sx <= 0xffff_ffff,
                        0 <= bpp <= 4,
                ;
            }
            let p: u128 = row + sx as u128 * bpp as u128;
            assert(p == f.position(sx as int, sy as int));
            if p + bpp as u128 <= src.len() as u128 {
                let at: usize = p as usize;
                assert(f.holds(sx as int, sy as int));
                rs = rs + src[at + ro] as u128;
                gs = gs + src[at + go] as u128;
                bs = bs + src[at + bo] as u128;
                n = n + 1;
            }
        }
    }
    proof {
        lemma_block_bounds(f, 0, gx0, gx1, gy0, y1 as int);
        lemma_block_bounds(f, 1, gx0, gx1, gy0, y1 as int);
        lemma_block_bounds(f, 2, gx0, gx1, gy0, y1 as int);
    }
    if n == 0 {
        return (0, 0, 0);
    }
    let half: u128 = n / 2;
    let r: u128 = (rs + half) / n;
    let g: u128 = (gs + half) / n;
    let b: u128 = (bs + half) / n;
    (r as u8, g as u8, b as u8)
}

proof fn lemma_position_in_rows(oy: int, ox: int, out_w: int, c: int)
    requires
        0 <= oy,
        0 <= ox < out_w,
        0 <= c < 4,
    ensures
        ({
            let k = (oy * out_w + ox) * 4 + c;
            &&& k / 4 == oy * out_w + ox
            &&& k % 4 == c
            &&& (k / 4) / out_w == oy
            &&& (k / 4) % out_w == ox
        }),
{
    let q = oy * out_w + ox;
    vstd::arithmetic::div_mod::lemma_fundamental_div_mod_converse(q, out_w, oy, ox);
}

/// Convert a captured buffer to straight RGBA8 and box-downscale it to
/// `out_w` x `out_h`. `y_invert` flips vertically.
///
/// Every output pixel is the unweighted average of the source pixels whose
/// centres fall in its bucket (an area/box filter), which suits the large
/// reduction ratios of thumbnails. Pixels that lie beyond the end of the buffer
/// are left out, and an output pixel so small that no centre falls in its
/// bucket is the source pixel it begins on.
#[allow(clippy::too_many_arguments)]
pub fn convert_downscale(
    src: &[u8],
    w: u32,
    h: u32,
    stride: u32,
    fmt: PixFmt,
    y_invert: bool,
    out_w: u32,
    out_h: u32,
) -> (r: Vec<u8>)
    requires
        out_w * out_h * 4 <= isize::MAX,
    ensures
        r@.len() == out_w * out_h * 4,
        ({
            let f = Source {
                bytes: src@,
                w: w as int,
                h: h as int,
                stride: stride as int,
                fmt,
                y_invert,
            };
            forall|k: int|
                0 <= k < r@.len() ==> #[trigger] r@[k] == f.thumbnail_byte(
                    (k / 4) % (out_w as int),
                    (k / 4) / (out_w as int),
                    out_w as int,
                    out_h as int,
                    k % 4,
                )
        }),
{
    proof {
        assert(0 <= out_w * out_h) by (nonlinear_arith);
    }
    let size: usize = (out_w as u128 * out_h as u128 * 4) as usize;
    if w == 0 || h == 0 || out_w == 0 || out_h == 0 {
        proof {
            assert(out_w == 0 || out_h == 0 ==> out_w * out_h == 0) by (nonlinear_arith);
        }
        return vec![0u8; size];
    }
    let ghost f = Source {
        bytes: src@,
        w: w as int,
        h: h as int,
        stride: stride as int,
        fmt,
        y_invert,
    };
    // The horizontal buckets are the same for every row.
    let mut xr: Vec<(u32, u32)> = Vec::with_capacity(out_w as usize);
    for ox in 0..out_w
        invariant
            0 < w,
            xr@.len() == ox,
            forall|i: int|
                0 <= i < ox ==> (#[trigger] xr@[i]).0 == bucket_start(i, w as int, out_w as int)
                    && xr@[i].1 == bucket_end(i, w as int, out_w as int) && xr@[i].0 < xr@[i].1
                    <= w,
    {
        xr.push(bucket(ox, w, out_w));
    }
    let mut out: Vec<u8> = Vec::with_capacity(size);
    proof {
        assert(0 * out_w == 0) by (nonlinear_arith);
        assert(out_h * out_w == out_w * out_h) by (nonlinear_arith);
    }
    for oy in 0..out_h
        invariant
            0 < w,
            0 < h,
            f == (Source {
                bytes: src@,
                w: w as int,
                h: h as int,
                stride: stride as int,
                fmt,
                y_invert,
            }),
            xr@.len() == out_w,
            forall|i: int|
                0 <= i < out_w ==> (#[trigger] xr@[i]).0 == bucket_start(i, w as int, out_w as int)
                    && xr@[i].1 == bucket_end(i, w as int, out_w as int) && xr@[i].0 < xr@[i].1
                    <= w,
            out@.len() == oy * out_w * 4,
            forall|k: int|
                0 <= k < out@.len() ==> #[trigger] out@[k] == f.thumbnail_byte(
                    (k / 4) % (out_w as int),
                    (k / 4) / (out_w as int),
                    out_w as int,
                    out_h as int,
                    k % 4,
                ),
    {
        let ys = bucket(oy, h, out_h);
        for ox in 0..xr.len()
            invariant
                0 < w,
                0 < h,
                oy < out_h,
                ys.0 == bucket_start(oy as int, h as int, out_h as int),
                ys.1 == bucket_end(oy as int, h as int, out_h as int),
                ys.0 < ys.1 <= h,
                f == (Source {
                    bytes: src@,
                    w: w as int,
                    h: h as int,
                    stride: stride as int,
                    fmt,
                    y_invert,
                }),
                xr@.len() == out_w,
                forall|i: int|
                    0 <= i < out_w ==> (#[trigger] xr@[i]).0 == bucket_start(
                        i,
                        w as int,
                        out_w as int,
                    ) && xr@[i].1 == bucket_end(i, w as int, out_w as int) && xr@[i].0 < xr@[i].1
                        <= w,
                out@.len() == (oy * out_w + ox) * 4,
                forall|k: int|
                    0 <= k < out@.len() ==> #[trigger] out@[k] == f.thumbnail_byte(
                        (k / 4) % (out_w as int),
                        (k / 4) / (out_w as int),
                        out_w as int,
                        out_h as int,
                        k % 4,
                    ),
        {
            let (r, g, b) = mean_of_block(src, w, h, stride, fmt, y_invert, xr[ox], ys);
            proof {
                lemma_position_in_rows(oy as int, ox as int, out_w as int, 0);
                lemma_position_in_rows(oy as int, ox as int, out_w as int, 1);
                lemma_position_in_rows(oy as int, ox as int, out_w as int, 2);
                lemma_position_in_rows(oy as int, ox as int, out_w as int, 3);
            }
            out.push(r);
            out.push(g);
            out.push(b);
            out.push(255);
        }
        assert((oy + 1) * out_w == oy * out_w + out_w) by (nonlinear_arith);
    }
    out
}

// -------------------------------------------------------------------- laws --

/// A thumbnail keeps the aspect ratio to within half a row, unless that would
/// leave it without any row, and it is never larger than its source.
pub proof fn law_thumb_keeps_the_aspect_ratio(w: int, h: int, target_w: int)
    requires
        0 < w <= 0xffff_ffff,
        0 < h <= 0xffff_ffff,
    ensures
        ({
            let out_w = thumb_width_of(w, target_w);
            let out_h = thumb_height_of(w, h, out_w);
            &&& 1 <= out_w <= w
            &&& 1 <= out_h <= h
            &&& out_h > 1 ==> -w <= 2 * (out_h * w - h * out_w) <= w
        }),
{
    let out_w = thumb_width_of(w, target_w);
    lemma_thumb_height_fits(w, h, out_w);
    let a = h * out_w;
    let q = (a + w / 2) / w;
    assert(-w <= 2 * (q * w - a) <= w) by (nonlinear_arith)
        requires
            q == (a + w / 2) / w,
            w > 0,
    ;
}

/// Where the centre of any pixel falls in a bucket, the bucket holds exactly
/// the pixels whose centres do.
pub proof fn law_a_bucket_holds_the_centres_in_it(s: int, t: int, o: int, len: int, out: int)
    requires
        0 < out,
        falls_to(t, o, len, out),
    ensures
        bucket_start(o, len, out) <= s < bucket_end(o, len, out) <==> falls_to(s, o, len, out),
{
    lemma_first_centre(t, o, len, out);
    lemma_first_centre(t, o + 1, len, out);
    lemma_first_centre(s, o, len, out);
    lemma_first_centre(s, o + 1, len, out);
}

/// Where there are no more output than source pixels, some centre falls in
/// every bucket, and every source pixel falls to exactly one output pixel.
pub proof fn law_every_pixel_counts_once(s: int, o: int, len: int, out: int)
    requires
        0 < out <= len,
        0 <= s < len,
    ensures
        has_a_centre(o, len, out),
        0 <= centre(s, out) / (2 * len) < out,
        bucket_start(o, len, out) <= s < bucket_end(o, len, out) <==> o == centre(s, out) / (2
            * len),
{
    let e = edge(o, len);
    assert(edge(o + 1, len) == e + 2 * len) by (nonlinear_arith)
        requires
            e == 2 * o * len,
            edge(o + 1, len) == 2 * (o + 1) * len,
    ;
    let q = first_centre(o, len, out);
    lemma_first_centre(q, o + 1, len, out);
    lemma_first_centre(q - 1, o, len, out);
    assert(centre(q, out) == centre(q - 1, out) + 2 * out) by (nonlinear_arith)
        requires
            centre(q, out) == (2 * q + 1) * out,
            centre(q - 1, out) == (2 * (q - 1) + 1) * out,
    ;
    lemma_first_centre(s, o, len, out);
    lemma_first_centre(s, o + 1, len, out);
    let c = centre(s, out);
    let d = c / (2 * len);
    vstd::arithmetic::div_mod::lemma_fundamental_div_mod(c, 2 * len);
    vstd::arithmetic::div_mod::lemma_mod_bound(c, 2 * len);
    assert(0 <= c < 2 * len * out) by (nonlinear_arith)
        requires
            c == (2 * s + 1) * out,
            0 <= s < len,
            0 < out,
    ;
    assert(0 <= d < out) by (nonlinear_arith)
        requires
            0 < len,
            2 * len * d <= c < 2 * len * d + 2 * len,
            0 <= c < 2 * len * out,
    ;
    assert((e <= c < e + 2 * len) <==> o == d) by (nonlinear_arith)
        requires
            0 < len,
            e == 2 * o * len,
            2 * len * d <= c < 2 * len * d + 2 * len,
    ;
}

/// A thumbnail is opaque everywhere, whatever the source's fourth byte holds.
pub proof fn law_thumbnails_are_opaque(f: Source, ox: int, oy: int, out_w: int, out_h: int)
    requires
        f.w > 0,
        f.h > 0,
    ensures
        f.thumbnail_byte(ox, oy, out_w, out_h, 3) == 255,
{
}

proof fn lemma_row_between(f: Source, c: int, sy: int, x0: int, x1: int, lo: int, hi: int)
    requires
        forall|sx: int|
            x0 <= sx < x1 && #[trigger] f.holds(sx, sy) ==> lo <= f.channel(c, sx, sy) <= hi,
    ensures
        lo * f.row_count(sy, x0, x1) <= f.row_sum(c, sy, x0, x1) <= hi * f.row_count(sy, x0, x1),
    decreases x1 - x0,
{
    if x0 < x1 {
        lemma_row_between(f, c, sy, x0, x1 - 1, lo, hi);
        let n = f.row_count(sy, x0, x1 - 1);
        assert(lo * (n + 1) == lo * n + lo && hi * (n + 1) == hi * n + hi) by (nonlinear_arith);
    }
}

proof fn lemma_block_between(
    f: Source,
    c: int,
    x0: int,
    x1: int,
    y0: int,
    y1: int,
    lo: int,
    hi: int,
)
    requires
        forall|sx: int, sy: int|
            x0 <= sx < x1 && y0 <= sy < y1 && #[trigger] f.holds(sx, sy) ==> lo <= f.channel(
                c,
                sx,
                sy,
            ) <= hi,
    ensures
        lo * f.block_count(x0, x1, y0, y1) <= f.block_sum(c, x0, x1, y0, y1) <= hi * f.block_count(
            x0,
            x1,
            y0,
            y1,
        ),
    decreases y1 - y0,
{
    if y0 < y1 {
        lemma_block_between(f, c, x0, x1, y0, y1 - 1, lo, hi);
        lemma_row_between(f, c, y1 - 1, x0, x1, lo, hi);
        let n = f.block_count(x0, x1, y0, y1 - 1);
        let m = f.row_count(y1 - 1, x0, x1);
        assert(lo * (n + m) == lo * n + lo * m && hi * (n + m) == hi * n + hi * m)
            by (nonlinear_arith);
    }
}

/// A box filter averages: a channel of a thumbnail pixel never lies outside
/// the range its source pixels span. So a plain area stays exactly as it is.
pub proof fn law_a_mean_lies_between_its_pixels(
    f: Source,
    c: int,
    x0: int,
    x1: int,
    y0: int,
    y1: int,
    lo: int,
    hi: int,
)
    requires
        f.block_count(x0, x1, y0, y1) > 0,
        forall|sx: int, sy: int|
            x0 <= sx < x1 && y0 <= sy < y1 && #[trigger] f.holds(sx, sy) ==> lo <= f.channel(
                c,
                sx,
                sy,
            ) <= hi,
    ensures
        lo <= f.block_mean(c, x0, x1, y0, y1) <= hi,
{
    lemma_block_between(f, c, x0, x1, y0, y1, lo, hi);
    let n = f.block_count(x0, x1, y0, y1);
    let s = f.block_sum(c, x0, x1, y0, y1);
    assert(lo <= (s + n / 2) / n <= hi) by (nonlinear_arith)
        requires
            n > 0,
            lo * n <= s <= hi * n,
    ;
}

proof fn lemma_rows_agree(f: Source, g: Source, c: int, fy: int, gy: int, x0: int, x1: int)
    requires
        forall|sx: int|
            x0 <= sx < x1 ==> #[trigger] f.holds(sx, fy) == g.holds(sx, gy) && (f.holds(sx, fy)
                ==> f.channel(c, sx, fy) == g.channel(c, sx, gy)),
    ensures
        f.row_count(fy, x0, x1) == g.row_count(gy, x0, x1),
        f.row_sum(c, fy, x0, x1) == g.row_sum(c, gy, x0, x1),
    decreases x1 - x0,
{
    if x0 < x1 {
        lemma_rows_agree(f, g, c, fy, gy, x0, x1 - 1);
    }
}

proof fn lemma_blocks_agree(f: Source, g: Source, c: int, x0: int, x1: int, y0: int, y1: int)
    requires
        forall|sx: int, sy: int|
            x0 <= sx < x1 && y0 <= sy < y1 ==> #[trigger] f.holds(sx, sy) == g.holds(sx, sy) && (
            f.holds(sx, sy) ==> f.channel(c, sx, sy) == g.channel(c, sx, sy)),
    ensures
        f.block_count(x0, x1, y0, y1) == g.block_count(x0, x1, y0, y1),
        f.block_sum(c, x0, x1, y0, y1) == g.block_sum(c, x0, x1, y0, y1),
    decreases y1 - y0,
{
    if y0 < y1 {
        lemma_blocks_agree(f, g, c, x0, x1, y0, y1 - 1);
        lemma_rows_agree(f, g, c, y1 - 1, y1 - 1, x0, x1);
    }
}

/// Only the colour bytes of the image's own pixels matter: row padding and
/// alpha bytes may hold anything.
pub proof fn law_only_the_colours_matter(
    f: Source,
    g: Source,
    ox: int,
    oy: int,
    out_w: int,
    out_h: int,
    c: int,
)
    requires
        f.w == g.w,
        f.h == g.h,
        0 <= f.w <= 0xffff_ffff,
        0 <= f.h <= 0xffff_ffff,
        0 <= ox < out_w <= 0xffff_ffff,
        0 <= oy < out_h <= 0xffff_ffff,
        forall|sx: int, sy: int|
            0 <= sx < f.w && 0 <= sy < f.h ==> #[trigger] f.holds(sx, sy) == g.holds(sx, sy) && (
            f.holds(sx, sy) ==> f.channel(c, sx, sy) == g.channel(c, sx, sy)),
    ensures
        f.thumbnail_byte(ox, oy, out_w, out_h, c) == g.thumbnail_byte(ox, oy, out_w, out_h, c),
{
    if f.w > 0 && f.h > 0 {
        lemma_bucket_bounds(ox, f.w, out_w);
        lemma_bucket_bounds(oy, f.h, out_h);
        lemma_blocks_agree(
            f,
            g,
            c,
            bucket_start(ox, f.w, out_w),
            bucket_end(ox, f.w, out_w),
            bucket_start(oy, f.h, out_h),
            bucket_end(oy, f.h, out_h),
        );
    }
}

proof fn lemma_bucket_of_one(o: int, len: int)
    requires
        0 < len,
    ensures
        bucket_start(o, len, len) == o,
        bucket_end(o, len, len) == o + 1,
{
    assert(centre(o, len) == edge(o, len) + len && centre(o - 1, len) == edge(o, len) - len
        && centre(o + 1, len) == edge(o + 1, len) + len && centre(o, len) == edge(o + 1, len) - len)
        by (nonlinear_arith)
        requires
            centre(o - 1, len) == (2 * (o - 1) + 1) * len,
            centre(o, len) == (2 * o + 1) * len,
            centre(o + 1, len) == (2 * (o + 1) + 1) * len,
            edge(o, len) == 2 * o * len,
            edge(o + 1, len) == 2 * (o + 1) * len,
    ;
    lemma_first_centre(o, o, len, len);
    lemma_first_centre(o - 1, o, len, len);
    lemma_first_centre(o + 1, o + 1, len, len);
    lemma_first_centre(o, o + 1, len, len);
}

/// At its own size an image is copied pixel for pixel.
pub proof fn law_same_size_is_a_copy(f: Source, ox: int, oy: int, c: int)
    requires
        0 <= ox < f.w,
        0 <= oy < f.h,
        0 <= c < 3,
        f.holds(ox, oy),
    ensures
        f.thumbnail_byte(ox, oy, f.w, f.h, c) == f.channel(c, ox, oy),
{
    lemma_bucket_of_one(ox, f.w);
    lemma_bucket_of_one(oy, f.h);
    reveal_with_fuel(Source::row_count, 2);
    reveal_with_fuel(Source::row_sum, 2);
    reveal_with_fuel(Source::block_count, 2);
    reveal_with_fuel(Source::block_sum, 2);
    let v = f.channel(c, ox, oy);
    assert(f.block_count(ox, ox + 1, oy, oy + 1) == 1);
    assert(f.block_sum(c, ox, ox + 1, oy, oy + 1) == v);
    assert((v + 1int / 2) / 1 == v);
}

proof fn lemma_block_from_the_top(f: Source, c: int, x0: int, x1: int, y0: int, y1: int)
    requires
        y0 < y1,
    ensures
        f.block_count(x0, x1, y0, y1) == f.row_count(y0, x0, x1) + f.block_count(
            x0,
            x1,
            y0 + 1,
            y1,
        ),
        f.block_sum(c, x0, x1, y0, y1) == f.row_sum(c, y0, x0, x1) + f.block_sum(
            c,
            x0,
            x1,
            y0 + 1,
            y1,
        ),
    decreases y1 - y0,
{
    reveal_with_fuel(Source::block_count, 2);
    reveal_with_fuel(Source::block_sum, 2);
    if y0 + 1 < y1 {
        lemma_block_from_the_top(f, c, x0, x1, y0, y1 - 1);
    }
}

proof fn lemma_inverted_block(f: Source, g: Source, c: int, x0: int, x1: int, y0: int, y1: int)
    requires
        g == (Source { y_invert: !f.y_invert, ..f }),
        y0 <= y1,
    ensures
        f.block_count(x0, x1, y0, y1) == g.block_count(x0, x1, f.h - y1, f.h - y0),
        f.block_sum(c, x0, x1, y0, y1) == g.block_sum(c, x0, x1, f.h - y1, f.h - y0),
    decreases y1 - y0,
{
    if y0 < y1 {
        lemma_inverted_block(f, g, c, x0, x1, y0, y1 - 1);
        lemma_block_from_the_top(g, c, x0, x1, f.h - y1, f.h - y0);
        assert(f.buffer_row(y1 - 1) == g.buffer_row(f.h - y1));
        assert forall|sx: int| x0 <= sx < x1 implies #[trigger] f.holds(sx, y1 - 1) == g.holds(
            sx,
            f.h - y1,
        ) && (f.holds(sx, y1 - 1) ==> f.channel(c, sx, y1 - 1) == g.channel(c, sx, f.h - y1)) by {
            assert(f.position(sx, y1 - 1) == g.position(sx, f.h - y1));
        }
        lemma_rows_agree(f, g, c, y1 - 1, f.h - y1, x0, x1);
    }
}

/// Whether that edge runs through the centre of a source pixel.
pub open spec fn runs_through_a_centre(o: int, len: int, out: int) -> bool {
    exists|s: int| #[trigger] centre(s, out) == edge(o, len)
}

proof fn lemma_mirrored_edge(o: int, len: int, out: int)
    requires
        0 < out,
        !runs_through_a_centre(o, len, out),
    ensures
        first_centre(out - o, len, out) == len - first_centre(o, len, out),
{
    let q = first_centre(o, len, out);
    let r = len - q;
    lemma_first_centre(q, o, len, out);
    lemma_first_centre(q - 1, o, len, out);
    lemma_first_centre(r, out - o, len, out);
    lemma_first_centre(r - 1, out - o, len, out);
    assert(edge(out - o, len) == 2 * (out * len) - edge(o, len)) by (nonlinear_arith)
        requires
            edge(o, len) == 2 * o * len,
            edge(out - o, len) == 2 * (out - o) * len,
    ;
    assert(centre(r, out) == 2 * (out * len) - centre(q - 1, out) && centre(r - 1, out) == 2 * (out
        * len) - centre(q, out)) by (nonlinear_arith)
        requires
            r == len - q,
            centre(r, out) == (2 * r + 1) * out,
            centre(r - 1, out) == (2 * (r - 1) + 1) * out,
            centre(q, out) == (2 * q + 1) * out,
            centre(q - 1, out) == (2 * (q - 1) + 1) * out,
    ;
    assert(centre(q, out) != edge(o, len));
}

/// Reading a buffer bottom-up flips the thumbnail vertically: row `oy` of one
/// is row `out_h - 1 - oy` of the other. This needs that neither edge of the
/// row runs through the centre of a source row, which falls to what is below
/// the edge either way up, and that a row that gets no centre lies within one
/// source row, as it takes the one it begins on.
pub proof fn law_inverting_flips(
    f: Source,
    g: Source,
    ox: int,
    oy: int,
    out_w: int,
    out_h: int,
    c: int,
)
    requires
        g == (Source { y_invert: !f.y_invert, ..f }),
        0 <= oy < out_h,
        0 < f.h,
        !runs_through_a_centre(oy, f.h, out_h),
        !runs_through_a_centre(oy + 1, f.h, out_h),
        has_a_centre(oy, f.h, out_h) || (oy + 1) * f.h <= (oy * f.h / out_h + 1) * out_h,
    ensures
        f.thumbnail_byte(ox, oy, out_w, out_h, c) == g.thumbnail_byte(
            ox,
            out_h - 1 - oy,
            out_w,
            out_h,
            c,
        ),
{
    let h = f.h;
    let m = out_h - 1 - oy;
    lemma_mirrored_edge(oy, h, out_h);
    lemma_mirrored_edge(oy + 1, h, out_h);
    assert(has_a_centre(m, h, out_h) == has_a_centre(oy, h, out_h));
    let y0 = bucket_start(oy, h, out_h);
    let y1 = bucket_end(oy, h, out_h);
    if !has_a_centre(oy, h, out_h) {
        lemma_mirrored_share(oy, h, out_h);
    }
    assert(bucket_start(m, h, out_h) == h - y1 && bucket_end(m, h, out_h) == h - y0);
    lemma_inverted_block(
        f,
        g,
        c,
        bucket_start(ox, f.w, out_w),
        bucket_end(ox, f.w, out_w),
        y0,
        y1,
    );
}

proof fn lemma_mirrored_share(o: int, len: int, out: int)
    requires
        0 <= o < out,
        0 < len,
        (o + 1) * len <= (o * len / out + 1) * out,
    ensures
        (out - 1 - o) * len / out == len - 1 - o * len / out,
{
    let a = o * len;
    let q = a / out;
    let n = (out - 1 - o) * len;
    vstd::arithmetic::div_mod::lemma_fundamental_div_mod(a, out);
    vstd::arithmetic::div_mod::lemma_mod_bound(a, out);
    assert(n == out * len - len - a && (o + 1) * len == a + len && (q + 1) * out == out * q + out)
        by (nonlinear_arith)
        requires
            a == o * len,
            n == (out - 1 - o) * len,
    ;
    let r = n - out * (len - 1 - q);
    assert(out * (len - 1 - q) == out * len - out - out * q) by (nonlinear_arith);
    assert(n == (len - 1 - q) * out + r) by (nonlinear_arith)
        requires
            r == n - out * (len - 1 - q),
    ;
    assert(0 <= r < out);
    vstd::arithmetic::div_mod::lemma_fundamental_div_mod_converse(n, out, len - 1 - q, r);
}

} // verus!
