use svitek::pixels::{convert_downscale, thumb_size, PixFmt, ShmFormat};

fn bgra(px: &[(u8, u8, u8)], w: usize, h: usize, stride: usize) -> Vec<u8> {
    let mut v = vec![0u8; stride * h];
    for y in 0..h {
        for x in 0..w {
            let (r, g, b) = px[y * w + x];
            let p = y * stride + x * 4;
            v[p] = b;
            v[p + 1] = g;
            v[p + 2] = r;
            v[p + 3] = 7; // garbage alpha: must be forced to 255
        }
    }
    v
}

#[test]
fn format_offsets() {
    assert_eq!(PixFmt::from_wl(ShmFormat::Xrgb8888), Some(PixFmt::Bgra));
    assert_eq!(PixFmt::from_wl(ShmFormat::Argb8888), Some(PixFmt::Bgra));
    assert_eq!(PixFmt::from_wl(ShmFormat::Xbgr8888), Some(PixFmt::Rgba));
    assert_eq!(PixFmt::from_wl(ShmFormat::Abgr8888), Some(PixFmt::Rgba));
    assert_eq!(PixFmt::from_wl(ShmFormat::Bgr888), Some(PixFmt::Rgb));
    assert_eq!(PixFmt::from_wl(ShmFormat::Rgb888), Some(PixFmt::Bgr));
    // rgb565 and yuv420, by their wire numbers.
    assert_eq!(PixFmt::from_wl(ShmFormat::Other(0x3631_4752)), None);
    assert_eq!(PixFmt::from_wl(ShmFormat::Other(0x3231_5559)), None);
}

#[test]
fn channel_order_bgra_vs_rgba() {
    // one pixel, memory bytes 10,20,30,40
    let src = [10u8, 20, 30, 40];
    let out = convert_downscale(&src, 1, 1, 4, PixFmt::Bgra, false, 1, 1);
    assert_eq!(out, vec![30, 20, 10, 255]);
    let out = convert_downscale(&src, 1, 1, 4, PixFmt::Rgba, false, 1, 1);
    assert_eq!(out, vec![10, 20, 30, 255]);
}

#[test]
fn alpha_is_forced_opaque() {
    let src = bgra(&[(1, 2, 3)], 1, 1, 4);
    let out = convert_downscale(&src, 1, 1, 4, PixFmt::Bgra, false, 1, 1);
    assert_eq!(out[3], 255);
}

#[test]
fn box_filter_averages_the_whole_block() {
    // 2x2 -> 1x1, must be the mean, not a corner sample (nearest neighbour
    // would give exactly one of the inputs).
    let px = [(0, 0, 0), (100, 100, 100), (200, 200, 200), (255, 255, 255)];
    let src = bgra(&px, 2, 2, 8);
    let out = convert_downscale(&src, 2, 2, 8, PixFmt::Bgra, false, 1, 1);
    let mean = ((0 + 100 + 200 + 255) + 2) / 4; // rounded
    assert_eq!(out, vec![mean as u8, mean as u8, mean as u8, 255]);
}

#[test]
fn box_filter_4x4_to_2x2() {
    let mut px = Vec::new();
    for y in 0..4u32 {
        for x in 0..4u32 {
            let v = (y * 4 + x) as u8 * 16;
            px.push((v, v, v));
        }
    }
    let src = bgra(&px, 4, 4, 16);
    let out = convert_downscale(&src, 4, 4, 16, PixFmt::Bgra, false, 2, 2);
    // top-left quadrant = mean of 0,16,64,80 = 40
    assert_eq!(out[0], 40);
    // top-right quadrant = mean of 32,48,96,112 = 72
    assert_eq!(out[4], 72);
    // bottom-left = mean of 128,144,192,208 = 168
    assert_eq!(out[8], 168);
    assert_eq!(out[12], 200);
}

#[test]
fn stride_padding_is_skipped() {
    // 2x2 image in a buffer with stride 12 (4 bytes of padding per row)
    let px = [(10, 10, 10), (20, 20, 20), (30, 30, 30), (40, 40, 40)];
    let mut src = bgra(&px, 2, 2, 12);
    // poison the padding
    for y in 0..2 {
        for i in 8..12 {
            src[y * 12 + i] = 0xff;
        }
    }
    let out = convert_downscale(&src, 2, 2, 12, PixFmt::Bgra, false, 1, 1);
    assert_eq!(out[0], 25);
}

#[test]
fn y_invert_flips_rows() {
    let px = [(0, 0, 0), (0, 0, 0), (255, 255, 255), (255, 255, 255)];
    let src = bgra(&px, 2, 2, 8);
    // 2x2 -> 1x2 keeps the two rows distinct
    let normal = convert_downscale(&src, 2, 2, 8, PixFmt::Bgra, false, 1, 2);
    assert_eq!(normal[0], 0);
    assert_eq!(normal[4], 255);
    let flipped = convert_downscale(&src, 2, 2, 8, PixFmt::Bgra, true, 1, 2);
    assert_eq!(flipped[0], 255);
    assert_eq!(flipped[4], 0);
}

#[test]
fn thumb_size_keeps_aspect_and_never_upscales() {
    assert_eq!(thumb_size(2560, 1440, 240), (240, 135));
    assert_eq!(thumb_size(1280, 720, 240), (240, 135));
    assert_eq!(thumb_size(1920, 1080, 300), (300, 169));
    // never upscale
    assert_eq!(thumb_size(100, 50, 240), (100, 50));
    // degenerate
    assert_eq!(thumb_size(0, 0, 240), (0, 0));
    // extreme aspect still yields at least one row
    assert_eq!(thumb_size(4000, 3, 240).1, 1);
}

#[test]
fn output_length_and_opacity_are_right() {
    let px: Vec<(u8, u8, u8)> = (0..(64 * 32)).map(|i| ((i % 256) as u8, 1, 2)).collect();
    let src = bgra(&px, 64, 32, 64 * 4);
    let (w, h) = thumb_size(64, 32, 16);
    assert_eq!((w, h), (16, 8));
    let out = convert_downscale(&src, 64, 32, 64 * 4, PixFmt::Bgra, false, w, h);
    assert_eq!(out.len(), (w * h * 4) as usize);
    assert!(out.chunks_exact(4).all(|p| p[3] == 255));
    assert!(out.chunks_exact(4).all(|p| p[1] == 1 && p[2] == 2));
}

#[test]
fn three_byte_formats_convert() {
    // bgr888: memory order R, G, B. 2x1 image, stride 6 (no padding).
    let src = [10u8, 20, 30, 50, 60, 70];
    let out = convert_downscale(&src, 2, 1, 6, PixFmt::Rgb, false, 2, 1);
    assert_eq!(out, vec![10, 20, 30, 255, 50, 60, 70, 255]);
    // rgb888: memory order B, G, R, with 2 bytes of row padding.
    let src = [30u8, 20, 10, 70, 60, 50, 0, 0];
    let out = convert_downscale(&src, 2, 1, 8, PixFmt::Bgr, false, 2, 1);
    assert_eq!(out, vec![10, 20, 30, 255, 50, 60, 70, 255]);
    // Box average over both pixels.
    let out = convert_downscale(&src, 2, 1, 8, PixFmt::Bgr, false, 1, 1);
    assert_eq!(out, vec![30, 40, 50, 255]);
}

// ------------------------------------------------------------- edge cases --

#[test]
fn an_empty_source_gives_zeros() {
    assert_eq!(convert_downscale(&[], 0, 5, 0, PixFmt::Bgra, false, 2, 1), vec![0u8; 8]);
    assert_eq!(convert_downscale(&[], 3, 3, 12, PixFmt::Bgra, false, 0, 4), Vec::<u8>::new());
}

#[test]
fn pixels_beyond_the_buffer_are_left_out() {
    // Only the first pixel of two is there: the mean is that pixel alone.
    let src = [10u8, 20, 30, 0];
    let out = convert_downscale(&src, 2, 1, 8, PixFmt::Rgba, false, 1, 1);
    assert_eq!(out, vec![10, 20, 30, 255]);
    // None of them is: black, but opaque.
    let out = convert_downscale(&[], 2, 1, 8, PixFmt::Rgba, false, 1, 1);
    assert_eq!(out, vec![0, 0, 0, 255]);
}

#[test]
fn a_thumbnail_larger_than_its_source_repeats_pixels() {
    let src = [10u8, 20, 30, 0];
    let out = convert_downscale(&src, 1, 1, 4, PixFmt::Rgba, false, 2, 1);
    assert_eq!(out, vec![10, 20, 30, 255, 10, 20, 30, 255]);
}

#[test]
fn uneven_buckets_share_every_pixel_once() {
    // Five pixels in three buckets with edges at 5/3 and 10/3, by their
    // centres: 0 1 | 2 | 3 4.
    let px: Vec<(u8, u8, u8)> = [0u8, 10, 20, 30, 40].iter().map(|v| (*v, 0, 0)).collect();
    let src = bgra(&px, 5, 1, 20);
    let out = convert_downscale(&src, 5, 1, 20, PixFmt::Bgra, false, 3, 1);
    assert_eq!((out[0], out[4], out[8]), (5, 20, 35));
    let src = [0, 0, 0, 100, 100, 100, 200, 200, 200, 200, 200, 200, 200, 200, 200];
    let out = convert_downscale(&src, 5, 1, 15, PixFmt::Rgb, false, 3, 1);
    assert_eq!(out, vec![50, 50, 50, 255, 200, 200, 200, 255, 200, 200, 200, 255]);
}

#[test]
fn a_centre_on_an_edge_falls_to_what_follows() {
    // Three pixels in two buckets: the edge is the centre of the middle one.
    let src = [10u8, 10, 10, 20, 20, 20, 40, 40, 40];
    let across = convert_downscale(&src, 3, 1, 9, PixFmt::Rgb, false, 2, 1);
    assert_eq!((across[0], across[4]), (10, 30));
    let down = convert_downscale(&src, 1, 3, 3, PixFmt::Rgb, false, 1, 2);
    assert_eq!((down[0], down[4]), (10, 30));
    let inverted = convert_downscale(&src, 1, 3, 3, PixFmt::Rgb, true, 1, 2);
    assert_eq!((inverted[0], inverted[4]), (40, 15));
}

#[test]
fn inverting_flips_uneven_rows_too() {
    // Five rows in three: 0 1 | 2 | 3 4.
    let src = [0u8, 0, 0, 10, 10, 10, 20, 20, 20, 30, 30, 30, 40, 40, 40];
    let row = |out: &[u8]| (out[0], out[4], out[8]);
    let upright = convert_downscale(&src, 1, 5, 3, PixFmt::Rgb, false, 1, 3);
    assert_eq!(row(&upright), (5, 20, 35));
    let inverted = convert_downscale(&src, 1, 5, 3, PixFmt::Rgb, true, 1, 3);
    assert_eq!(row(&inverted), (35, 20, 5));
}

#[test]
fn a_bucket_without_a_centre_takes_the_pixel_it_begins_on() {
    // Two pixels in five: centres at 1/2 and 3/2, edges every 2/5.
    let src = [10u8, 10, 10, 20, 20, 20];
    let out = convert_downscale(&src, 2, 1, 6, PixFmt::Rgb, false, 5, 1);
    let red: Vec<u8> = out.chunks_exact(4).map(|p| p[0]).collect();
    assert_eq!(red, vec![10, 10, 10, 20, 20]);
}

#[test]
fn the_same_size_is_a_copy() {
    let px = [(1, 2, 3), (4, 5, 6), (7, 8, 9), (10, 11, 12)];
    let src = bgra(&px, 2, 2, 8);
    let out = convert_downscale(&src, 2, 2, 8, PixFmt::Bgra, false, 2, 2);
    assert_eq!(out, vec![1, 2, 3, 255, 4, 5, 6, 255, 7, 8, 9, 255, 10, 11, 12, 255]);
}

#[test]
fn a_plain_area_stays_plain() {
    let src = vec![77u8; 4 * 9];
    let out = convert_downscale(&src, 3, 3, 12, PixFmt::Bgra, false, 2, 2);
    assert!(out.chunks_exact(4).all(|p| p == [77, 77, 77, 255]));
}

#[test]
fn thumbnail_height_is_rounded_to_the_nearest_row() {
    // 3 * 2 / 4 = 1.5 rounds up.
    assert_eq!(thumb_size(4, 3, 2), (2, 2));
    assert_eq!(thumb_size(1000, 600, 0), (1, 1));
    assert_eq!(thumb_size(0, 600, 10), (0, 0));
}
