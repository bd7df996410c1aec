//! What each thing that comes in does to the captures, told by what is under
//! way before and after it.

use crate::capture::{
    BufInfo, CaptureActionView, CaptureInputView, CaptureView, OutputView, PendingFrame, ShmBuffer,
};
use crate::model::{CaptureReason, MsgView};
use vstd::prelude::*;

verus! {

/// Whether the capture under way on output `i` is frame `frame`.
pub open spec fn is_under_way(c: CaptureView, i: int, frame: u64) -> bool {
    &&& 0 <= i < c.outputs.len()
    &&& c.outputs[i].pending matches Some(p) && p.id == frame
}

/// Whether output `i` is the first of that name.
pub open spec fn is_first_called(c: CaptureView, i: int, name: Seq<char>) -> bool {
    &&& 0 <= i < c.outputs.len()
    &&& c.outputs[i].name == Some(name)
    &&& forall|j: int| 0 <= j < i ==> (#[trigger] c.outputs[j]).name != Some(name)
}

/// Whether output `i` is the first of that global number.
pub open spec fn is_first_numbered(c: CaptureView, i: int, global: u32) -> bool {
    &&& 0 <= i < c.outputs.len()
    &&& c.outputs[i].global == global
    &&& forall|j: int| 0 <= j < i ==> (#[trigger] c.outputs[j]).global != global
}

/// Whether nothing but output `i` differs.
pub open spec fn only_output_differs(c: CaptureView, d: CaptureView, i: int) -> bool {
    &&& d == (CaptureView { outputs: d.outputs, ..c })
    &&& d.outputs.len() == c.outputs.len()
    &&& forall|j: int| 0 <= j < c.outputs.len() && j != i ==> #[trigger] d.outputs[j] == c.outputs[j]
}

/// What an output is called in a report.
pub open spec fn says(o: OutputView, label: Seq<char>) -> bool {
    match o.name {
        Some(n) => label == n,
        None => label == "<unnamed>"@,
    }
}

proof fn lemma_under_way(c: CaptureView, i: int, frame: u64)
    requires
        c.wf(),
        is_under_way(c, i, frame),
    ensures
        c.by_frame(frame) == Some(i),
{
    let p = crate::capture::awaits_frame(frame);
    crate::lists::lemma_position(c.outputs, p);
    assert(p(c.outputs[i]));
    let k = c.by_frame(frame)->Some_0;
    if k != i {
        assert(c.outputs[k].pending is Some && c.outputs[i].pending is Some);
    }
}

// -------------------------------------------------------------- the frames --

/// The flags of a frame say which way up it is: its rows are bottom up exactly
/// if the lowest bit is set. They change nothing else.
pub proof fn law_flags_say_which_way_up(c: CaptureView, i: int, frame: u64, flags: u32, now: u64)
    requires
        c.wf(),
        is_under_way(c, i, frame),
    ensures
        ({
            let r = c.handle(CaptureInputView::Flags { frame, flags }, now);
            &&& only_output_differs(c, r.0, i)
            &&& r.0.outputs[i].pending matches Some(p) && r.0.outputs[i] == (OutputView {
                pending: Some(
                    PendingFrame { y_invert: p.y_invert, ..c.outputs[i].pending->0 },
                ),
                ..c.outputs[i]
            }) && (p.y_invert <==> flags & 1 == 1)
            &&& r.1.len() == 0
        }),
{
    lemma_under_way(c, i, frame);
    assert(flags & 1 == 1 <==> flags % 2 == 1) by (bit_vector);
}

/// The first layout offered that can be converted is kept, and only that one:
/// what is offered after it, and what cannot be converted, is passed over.
pub proof fn law_the_first_supported_layout_is_kept(
    c: CaptureView,
    i: int,
    frame: u64,
    info: BufInfo,
    now: u64,
)
    requires
        c.wf(),
        is_under_way(c, i, frame),
        c.manager_version >= 3,
    ensures
        ({
            let r = c.handle(CaptureInputView::Buffer { frame, info }, now);
            let p = c.outputs[i].pending->0;
            &&& only_output_differs(c, r.0, i)
            &&& r.1.len() == 0
            &&& info.format is Other || p.info is Some ==> r.0.outputs[i] == c.outputs[i]
            &&& !(info.format is Other) && p.info is None ==> r.0.outputs[i] == (OutputView {
                pending: Some(PendingFrame { info: Some(info), ..p }),
                ..c.outputs[i]
            })
        }),
{
    lemma_under_way(c, i, frame);
}

/// Before version 3 of the manager a layout that can be converted is also the
/// cue for the copy: what follows is what follows the end of the offers later
/// on.
pub proof fn law_an_old_manager_copies_at_once(
    c: CaptureView,
    i: int,
    frame: u64,
    info: BufInfo,
    now: u64,
)
    requires
        c.wf(),
        is_under_way(c, i, frame),
        c.manager_version < 3,
    ensures
        ({
            let offer = CaptureInputView::Buffer { frame, info };
            let newer = CaptureView { manager_version: 3, ..c }.handle(offer, now).0;
            let kept = CaptureView { manager_version: c.manager_version, ..newer };
            let r = c.handle(offer, now);
            &&& info.format is Other ==> r.0 == c && r.1.len() == 0
            &&& !(info.format is Other) ==> r == kept.handle(
                CaptureInputView::BufferDone { frame },
                now,
            )
        }),
{
    lemma_under_way(c, i, frame);
    let offer = CaptureInputView::Buffer { frame, info };
    let three = CaptureView { manager_version: 3, ..c };
    lemma_under_way(three, i, frame);
    if !(info.format is Other) {
        let newer = three.handle(offer, now).0;
        let kept = CaptureView { manager_version: c.manager_version, ..newer };
        assert(kept.outputs.len() == c.outputs.len());
        assert(kept.wf());
        lemma_under_way(kept, i, frame);
    }
}

/// Once the layouts are known the frame is copied into the buffer there is, if
/// that has the frame's layout and the compositor gave it back. The copy waits
/// for damage exactly if nobody asked for the frame and the manager can wait.
pub proof fn law_a_buffer_that_fits_is_used_again(
    c: CaptureView,
    i: int,
    frame: u64,
    b: ShmBuffer,
    now: u64,
)
    requires
        c.wf(),
        is_under_way(c, i, frame),
        c.shm,
        !c.outputs[i].pending->0.copying,
        c.outputs[i].buffer == Some(b),
        c.outputs[i].pending->0.info == Some(b.info),
        b.released,
    ensures
        ({
            let r = c.handle(CaptureInputView::BufferDone { frame }, now);
            let p = c.outputs[i].pending->0;
            &&& only_output_differs(c, r.0, i)
            &&& r.0.outputs[i] == (OutputView {
                pending: Some(PendingFrame { copying: true, ..p }),
                buffer: Some(ShmBuffer { released: false, ..b }),
                ..c.outputs[i]
            })
            &&& r.1 == seq![
                CaptureActionView::CopyFrame {
                    frame,
                    tag: b.tag,
                    with_damage: p.reason is Background && c.manager_version >= 2,
                },
            ]
        }),
{
    lemma_under_way(c, i, frame);
}

/// A buffer of another layout, or one the compositor still has, is given up,
/// and one of the frame's own layout is asked for.
pub proof fn law_a_buffer_that_does_not_fit_is_replaced(
    c: CaptureView,
    i: int,
    frame: u64,
    info: BufInfo,
    now: u64,
)
    requires
        c.wf(),
        is_under_way(c, i, frame),
        c.shm,
        !c.outputs[i].pending->0.copying,
        c.outputs[i].pending->0.info == Some(info),
        info.stride > 0,
        info.height > 0,
        c.outputs[i].buffer matches Some(b) ==> b.info != info || !b.released,
    ensures
        ({
            let r = c.handle(CaptureInputView::BufferDone { frame }, now);
            &&& only_output_differs(c, r.0, i)
            &&& r.0.outputs[i] == (OutputView { buffer: None, ..c.outputs[i] })
            &&& r.1.last() == (CaptureActionView::Allocate { frame, info })
            &&& match c.outputs[i].buffer {
                Some(b) => r.1.len() == 2 && r.1[0] == (CaptureActionView::DropBuffer { tag: b.tag }),
                None => r.1.len() == 1,
            }
        }),
{
    lemma_under_way(c, i, frame);
}

/// The buffer that was asked for is the frame's from then on, and the frame is
/// copied into it.
pub proof fn law_a_new_buffer_is_copied_into(
    c: CaptureView,
    i: int,
    frame: u64,
    info: BufInfo,
    now: u64,
)
    requires
        c.wf(),
        is_under_way(c, i, frame),
        !c.outputs[i].pending->0.copying,
        c.outputs[i].pending->0.info == Some(info),
        c.outputs[i].buffer is None,
    ensures
        ({
            let r = c.handle(CaptureInputView::Allocated { frame }, now);
            let p = c.outputs[i].pending->0;
            &&& only_output_differs(c, r.0, i)
            &&& r.0.outputs[i] == (OutputView {
                pending: Some(PendingFrame { copying: true, ..p }),
                buffer: Some(ShmBuffer { tag: frame, info, released: false }),
                ..c.outputs[i]
            })
            &&& r.1 == seq![
                CaptureActionView::CopyFrame {
                    frame,
                    tag: frame,
                    with_damage: p.reason is Background && c.manager_version >= 2,
                },
            ]
        }),
{
    lemma_under_way(c, i, frame);
}

/// A buffer that comes too late, for a frame that is gone, has one or is being
/// copied, is given up again and changes nothing.
pub proof fn law_a_late_buffer_is_given_up(c: CaptureView, frame: u64, now: u64)
    requires
        forall|j: int|
            0 <= j < c.outputs.len() && (#[trigger] c.outputs[j]).pending is Some
                && c.outputs[j].pending->0.id == frame ==> c.outputs[j].buffer is Some
                || c.outputs[j].pending->0.copying,
    ensures
        c.handle(CaptureInputView::Allocated { frame }, now) == (
            c,
            seq![CaptureActionView::DropBuffer { tag: frame }],
        ),
{
    crate::lists::lemma_position(c.outputs, crate::capture::awaits_frame(frame));
}

/// A buffer the compositor gives back may be used again; nothing else changes.
pub proof fn law_a_released_buffer_is_free_again(c: CaptureView, i: int, tag: u64, now: u64)
    requires
        0 <= i < c.outputs.len(),
        c.outputs[i].buffer matches Some(b) && b.tag == tag,
        forall|j: int|
            0 <= j < i && (#[trigger] c.outputs[j]).buffer is Some ==> c.outputs[j].buffer->0.tag
                != tag,
    ensures
        ({
            let r = c.handle(CaptureInputView::Released { tag }, now);
            &&& only_output_differs(c, r.0, i)
            &&& r.0.outputs[i] == (OutputView {
                buffer: Some(ShmBuffer { released: true, ..c.outputs[i].buffer->0 }),
                ..c.outputs[i]
            })
            &&& r.1.len() == 0
        }),
{
    let p = crate::capture::owns_buffer(tag);
    crate::lists::lemma_position(c.outputs, p);
    assert(p(c.outputs[i]));
}

/// Whether the frame came to nothing: nothing is under way on its output, the
/// next capture of it is due after the least interval, the frame is destroyed
/// and the failure reported with its cause.
pub open spec fn came_to_nothing(
    c: CaptureView,
    i: int,
    r: crate::capture::CaptureTurn,
    error: Seq<char>,
    now: u64,
) -> bool {
    let p = c.outputs[i].pending->0;
    &&& only_output_differs(c, r.0, i)
    &&& r.0.outputs[i] == (OutputView {
        pending: None,
        next_due: r.0.outputs[i].next_due,
        ..c.outputs[i]
    })
    &&& r.0.outputs[i].next_due == now + c.min_interval
    &&& r.1.len() == 2
    &&& r.1[0] == (CaptureActionView::DestroyFrame { frame: p.id })
    &&& r.1[1] matches CaptureActionView::Emit(
        MsgView::CaptureFailed { output, reason, error: e },
    ) && says(c.outputs[i], output) && reason == p.reason && e == error
}

/// A frame comes to nothing if the compositor says so, if it offers no layout
/// that can be converted, or if there is no buffer to be had.
pub proof fn law_failures_are_reported_with_their_cause(
    c: CaptureView,
    i: int,
    frame: u64,
    error: Seq<char>,
    now: u64,
)
    requires
        c.wf(),
        is_under_way(c, i, frame),
    ensures
        came_to_nothing(
            c,
            i,
            c.handle(CaptureInputView::Failed { frame }, now),
            "compositor reported frame copy failure"@,
            now,
        ),
        came_to_nothing(
            c,
            i,
            c.handle(CaptureInputView::AllocationFailed { frame, error }, now),
            error,
            now,
        ),
        c.outputs[i].pending->0.info is None ==> came_to_nothing(
            c,
            i,
            c.handle(CaptureInputView::BufferDone { frame }, now),
            "compositor offered no supported shm format"@,
            now,
        ),
{
    lemma_under_way(c, i, frame);
}

/// A frame without any bytes comes to nothing before a buffer is asked for; the
/// buffer that did not fit is given up first.
pub proof fn law_an_empty_frame_fails(
    c: CaptureView,
    i: int,
    frame: u64,
    info: BufInfo,
    now: u64,
)
    requires
        c.wf(),
        is_under_way(c, i, frame),
        c.shm,
        !c.outputs[i].pending->0.copying,
        c.outputs[i].pending->0.info == Some(info),
        info.stride == 0 || info.height == 0,
        c.outputs[i].buffer matches Some(b) ==> b.info != info || !b.released,
    ensures
        ({
            let r = c.handle(CaptureInputView::BufferDone { frame }, now);
            let d = CaptureView {
                outputs: c.outputs.update(i, OutputView { buffer: None, ..c.outputs[i] }),
                ..c
            };
            let n: int = if c.outputs[i].buffer is Some {
                1
            } else {
                0
            };
            &&& r.1.len() == n + 2
            &&& c.outputs[i].buffer matches Some(b) ==> r.1[0] == (CaptureActionView::DropBuffer {
                tag: b.tag,
            })
            &&& came_to_nothing(
                d,
                i,
                (r.0, r.1.skip(n)),
                "zero-sized capture buffer"@,
                now,
            )
        }),
{
    lemma_under_way(c, i, frame);
}

/// A frame that has been copied is over: nothing is under way on its output,
/// the next capture of it is due after the least interval, its buffer stays,
/// the frame is destroyed, and one report of that output and that reason
/// follows. It is a picture taken now exactly if the output's buffer has the
/// frame's layout.
pub proof fn law_a_copied_frame_is_reported(
    c: CaptureView,
    i: int,
    frame: u64,
    pixels: Seq<u8>,
    now: u64,
)
    requires
        c.wf(),
        is_under_way(c, i, frame),
    ensures
        ({
            let r = c.on_ready(frame, pixels, now);
            let p = c.outputs[i].pending->0;
            let o = c.outputs[i];
            &&& only_output_differs(c, r.0, i)
            &&& r.0.outputs[i] == (OutputView {
                pending: None,
                next_due: r.0.outputs[i].next_due,
                ..o
            })
            &&& r.0.outputs[i].next_due == now + c.min_interval
            &&& r.1.len() == 2
            &&& r.1[0] == (CaptureActionView::DestroyFrame { frame })
            &&& if p.info is Some && o.buffer is Some && o.buffer->0.info == p.info->0 {
                r.1[1] matches CaptureActionView::Emit(MsgView::Frame { output, thumb, reason })
                    && says(o, output) && reason == p.reason && thumb.taken_at == now
            } else {
                r.1[1] matches CaptureActionView::Emit(
                    MsgView::CaptureFailed { output, reason, error },
                ) && says(o, output) && reason == p.reason && error == if p.info is None {
                    "no supported shm buffer format"@
                } else {
                    "capture buffer vanished"@
                }
            }
        }),
{
    lemma_under_way(c, i, frame);
}

/// Where red (0), green (1) or blue (2) of pixel `x` of row `y` of the screen is
/// in a buffer of this layout.
pub open spec fn screen_place(info: BufInfo, bottom_up: bool, c: int, x: int, y: int) -> int {
    let row = if bottom_up {
        info.height - 1 - y
    } else {
        y
    };
    row * info.stride + match info.format {
        crate::pixels::ShmFormat::Xrgb8888 | crate::pixels::ShmFormat::Argb8888 => 4 * x + 2 - c,
        crate::pixels::ShmFormat::Xbgr8888 | crate::pixels::ShmFormat::Abgr8888 => 4 * x + c,
        crate::pixels::ShmFormat::Bgr888 => 3 * x + c,
        _ => 3 * x + 2 - c,
    }
}

/// How many bytes a pixel of this layout takes.
pub open spec fn bytes_of_a_pixel(info: BufInfo) -> int {
    if info.format is Bgr888 || info.format is Rgb888 {
        3
    } else {
        4
    }
}

/// The picture that is reported shows the screen the right way up: a colour of
/// one of its pixels is between two values if it is in every pixel of the
/// screen whose middle lies within it. The first row of the screen is the first
/// of the buffer, or the last where the frame's flags said so. The picture is
/// as wide as was asked for, or as the screen if that is narrower.
pub proof fn law_a_picture_shows_the_screen_the_right_way_up(
    c: CaptureView,
    i: int,
    frame: u64,
    info: BufInfo,
    pixels: Seq<u8>,
    now: u64,
    ox: int,
    oy: int,
    ch: int,
    lo: int,
    hi: int,
)
    requires
        c.wf(),
        is_under_way(c, i, frame),
        c.outputs[i].pending->0.info == Some(info),
        c.outputs[i].buffer matches Some(b) && b.info == info,
        0 < info.width,
        0 < info.height,
        info.width * bytes_of_a_pixel(info) <= info.stride,
        info.height * info.stride <= pixels.len(),
        0 <= ch < 3,
    ensures
        ({
            let report = c.on_ready(frame, pixels, now).1[1];
            let bottom_up = c.outputs[i].pending->0.y_invert;
            &&& report matches CaptureActionView::Emit(MsgView::Frame { output, thumb, reason })
            &&& thumb.width == if c.thumb_width < 1 {
                1
            } else if c.thumb_width > info.width {
                info.width
            } else {
                c.thumb_width
            }
            &&& thumb.height == crate::pixels::thumb_height_of(
                info.width as int,
                info.height as int,
                thumb.width as int,
            )
            &&& thumb.rgba.len() == thumb.width * thumb.height * 4
            &&& 0 <= ox < thumb.width && 0 <= oy < thumb.height ==> {
                &&& thumb.rgba[(oy * thumb.width + ox) * 4 + 3] == 255
                &&& (forall|x: int, y: int|
                    0 <= x < info.width && 0 <= y < info.height && crate::pixel_steps::lies_within(
                        x,
                        ox,
                        info.width as int,
                        thumb.width as int,
                    ) && crate::pixel_steps::lies_within(
                        y,
                        oy,
                        info.height as int,
                        thumb.height as int,
                    ) ==> lo <= pixels[#[trigger] screen_place(info, bottom_up, ch, x, y)] <= hi)
                    ==> lo <= thumb.rgba[(oy * thumb.width + ox) * 4 + ch] <= hi
            }
        }),
{
    lemma_under_way(c, i, frame);
    let p = c.outputs[i].pending->0;
    let (w, h) = c.thumb_dimensions(info);
    crate::pixels::law_thumb_keeps_the_aspect_ratio(
        info.width as int,
        info.height as int,
        c.thumb_width as int,
    );
    let f = crate::pixels::Source {
        bytes: pixels,
        w: info.width as int,
        h: info.height as int,
        stride: info.stride as int,
        fmt: crate::pixels::layout_of(info.format)->0,
        y_invert: p.y_invert,
    };
    assert(0 <= w * h) by (nonlinear_arith)
        requires
            1 <= w,
            1 <= h,
    ;
    assert(!(info.format is Other));
    assert(f.thumbnail(w, h).len() == w * h * 4);
    if 0 <= ox < w && 0 <= oy < h {
        crate::pixel_steps::lemma_thumbnail_at(f, ox, oy, w, h, 3);
        crate::pixel_steps::lemma_thumbnail_at(f, ox, oy, w, h, ch);
        assert forall|x: int, y: int| #[trigger]
            crate::pixel_steps::place_of(f, ch, x, y) == screen_place(
                info,
                p.y_invert,
                ch,
                x,
                y,
            ) by {}
        if forall|x: int, y: int|
            0 <= x < info.width && 0 <= y < info.height && crate::pixel_steps::lies_within(
                x,
                ox,
                info.width as int,
                w,
            ) && crate::pixel_steps::lies_within(y, oy, info.height as int, h) ==> lo
                <= pixels[#[trigger] screen_place(info, p.y_invert, ch, x, y)] <= hi {
            assert forall|sx: int, sy: int|
                0 <= sx < f.w && 0 <= sy < f.h && crate::pixel_steps::lies_within(sx, ox, f.w, w)
                    && crate::pixel_steps::lies_within(sy, oy, f.h, h) implies lo
                <= f.bytes[#[trigger] crate::pixel_steps::place_of(f, ch, sx, sy)] <= hi by {
                assert(lo <= pixels[screen_place(info, p.y_invert, ch, sx, sy)] <= hi);
            }
            crate::pixel_steps::law_a_thumbnail_pixel_shows_its_share(f, ox, oy, w, h, ch, lo, hi);
        }
    }
}

/// The flags of a frame decide which rows of its buffer the first rows of the
/// picture are made from: the first ones if the lowest bit is clear, the last
/// ones if it is set, and so on from there.
pub proof fn law_flags_decide_which_rows_come_first(
    c: CaptureView,
    i: int,
    frame: u64,
    flags: u32,
    info: BufInfo,
    pixels: Seq<u8>,
    now: u64,
    later: u64,
    ox: int,
    oy: int,
    ch: int,
    lo: int,
    hi: int,
)
    requires
        c.wf(),
        is_under_way(c, i, frame),
        c.outputs[i].pending->0.info == Some(info),
        c.outputs[i].buffer matches Some(b) && b.info == info,
        0 < info.width,
        0 < info.height,
        info.width * bytes_of_a_pixel(info) <= info.stride,
        info.height * info.stride <= pixels.len(),
        0 <= ch < 3,
    ensures
        ({
            let d = c.handle(CaptureInputView::Flags { frame, flags }, now).0;
            let report = d.on_ready(frame, pixels, later).1[1];
            let bottom_up = flags & 1 == 1;
            &&& report matches CaptureActionView::Emit(MsgView::Frame { output, thumb, reason })
            &&& 0 <= ox < thumb.width && 0 <= oy < thumb.height && (forall|x: int, y: int|
                0 <= x < info.width && 0 <= y < info.height && crate::pixel_steps::lies_within(
                    x,
                    ox,
                    info.width as int,
                    thumb.width as int,
                ) && crate::pixel_steps::lies_within(
                    y,
                    oy,
                    info.height as int,
                    thumb.height as int,
                ) ==> lo <= pixels[#[trigger] screen_place(info, bottom_up, ch, x, y)] <= hi)
                ==> lo <= thumb.rgba[(oy * thumb.width + ox) * 4 + ch] <= hi
        }),
{
    let input = CaptureInputView::Flags { frame, flags };
    law_flags_say_which_way_up(c, i, frame, flags, now);
    crate::capture::law_captures_stay_well_formed(c, input, now);
    law_a_picture_shows_the_screen_the_right_way_up(
        c.handle(input, now).0,
        i,
        frame,
        info,
        pixels,
        later,
        ox,
        oy,
        ch,
        lo,
        hi,
    );
}

// ------------------------------------------------------------ the requests --

/// A request of an output of that name is captured at once, under a number of
/// its own and for that reason: whatever was under way there is given up, and
/// nothing else changes.
pub proof fn law_a_request_captures_that_output(
    c: CaptureView,
    i: int,
    output: Seq<char>,
    reason: CaptureReason,
    now: u64,
)
    requires
        c.manager,
        c.has_numbers(),
        is_first_called(c, i, output),
    ensures
        ({
            let r = c.handle(CaptureInputView::Request { output, reason }, now);
            let id = c.next_frame_id;
            &&& r.0.next_frame_id == id + 1
            &&& only_output_differs(
                c,
                CaptureView { next_frame_id: c.next_frame_id, ..r.0 },
                i,
            )
            &&& r.0.outputs[i] == (OutputView {
                pending: Some(
                    PendingFrame { id, reason, info: None, copying: false, y_invert: false },
                ),
                ..c.outputs[i]
            })
            &&& r.1.last() == (CaptureActionView::CaptureOutput {
                global: c.outputs[i].global,
                frame: id,
            })
            &&& match c.outputs[i].pending {
                Some(p) => r.1.len() == 2 && r.1[0] == (CaptureActionView::DestroyFrame {
                    frame: p.id,
                }),
                None => r.1.len() == 1,
            }
        }),
{
    let p = crate::capture::is_called(output);
    crate::lists::lemma_position(c.outputs, p);
    assert(p(c.outputs[i]));
    let k = crate::lists::position(c.outputs, p)->Some_0;
    if k < i {
        assert(p(c.outputs[k]));
    }
}

/// A request of an output that is not there fails, with its own name and
/// reason, and changes nothing.
pub proof fn law_a_request_of_no_output_fails(
    c: CaptureView,
    output: Seq<char>,
    reason: CaptureReason,
    now: u64,
)
    requires
        forall|j: int| 0 <= j < c.outputs.len() ==> (#[trigger] c.outputs[j]).name != Some(output),
    ensures
        c.handle(CaptureInputView::Request { output, reason }, now) == (
            c,
            seq![
                CaptureActionView::Emit(
                    MsgView::CaptureFailed { output, reason, error: "unknown output"@ },
                ),
            ],
        ),
{
    crate::lists::lemma_position(c.outputs, crate::capture::is_called(output));
}

/// Pausing gives up the captures that nobody asked for and no others; resuming
/// makes every output due at once and touches nothing under way. To be told
/// what is so already does nothing.
pub proof fn law_pausing_gives_up_the_background(c: CaptureView, paused: bool, now: u64, i: int)
    requires
        0 <= i < c.outputs.len(),
    ensures
        ({
            let r = c.handle(CaptureInputView::SetPaused(paused), now);
            let before = c.outputs[i];
            let after = r.0.outputs[i];
            &&& r.0 == (CaptureView { outputs: r.0.outputs, paused, ..c })
            &&& r.0.outputs.len() == c.outputs.len()
            &&& c.paused == paused ==> r.0 == c && r.1.len() == 0
            &&& !c.paused && paused ==> after == (OutputView {
                pending: if before.pending is Some && before.pending->0.reason is Background {
                    None
                } else {
                    before.pending
                },
                ..before
            })
            &&& c.paused && !paused ==> r.1.len() == 0 && after.next_due == now && after == (
            OutputView { next_due: after.next_due, ..before })
        }),
{
    if !c.paused && paused {
        lemma_dropping_the_background(CaptureView { paused, ..c }, c.outputs.len(), i);
    }
}

proof fn lemma_dropping_the_background(c: CaptureView, n: nat, i: int)
    requires
        n <= c.outputs.len(),
        0 <= i < c.outputs.len(),
    ensures
        ({
            let d = c.drop_background(n).0;
            let before = c.outputs[i];
            &&& d == (CaptureView { outputs: d.outputs, ..c })
            &&& d.outputs.len() == c.outputs.len()
            &&& d.outputs[i] == if i < n && before.pending is Some
                && before.pending->0.reason is Background {
                OutputView { pending: None, ..before }
            } else {
                before
            }
        }),
    decreases n,
{
    if n > 0 {
        lemma_dropping_the_background(c, (n - 1) as nat, i);
        lemma_dropping_the_background(c, (n - 1) as nat, n - 1);
    }
}

// ---------------------------------------------------------- the background --

/// Whether a capture of the output is to be started by itself: it has a name,
/// nothing is under way on it, and its time has come.
pub open spec fn is_wanted(o: OutputView, now: u64) -> bool {
    o.name is Some && o.pending is None && o.next_due <= now
}

/// In the background exactly the outputs are captured that have a name, have
/// nothing under way and whose time has come; all others stay as they are.
pub proof fn law_the_background_captures_what_is_due(c: CaptureView, now: u64, i: int)
    requires
        c.has_numbers(),
        c.manager,
        !c.paused,
        0 <= i < c.outputs.len(),
    ensures
        ({
            let r = c.schedule(now);
            let before = c.outputs[i];
            let after = r.0.outputs[i];
            &&& r.0 == (CaptureView {
                outputs: r.0.outputs,
                next_frame_id: r.0.next_frame_id,
                ..c
            })
            &&& r.0.outputs.len() == c.outputs.len()
            &&& !is_wanted(before, now) ==> after == before
            &&& is_wanted(before, now) ==> {
                &&& after.pending matches Some(p) && p.reason is Background && p.info is None
                    && !p.copying && !p.y_invert && c.next_frame_id <= p.id < r.0.next_frame_id
                    && r.1.contains(
                    CaptureActionView::CaptureOutput { global: before.global, frame: p.id },
                )
                &&& after == (OutputView { pending: after.pending, ..before })
            }
        }),
{
    lemma_scheduled(c, c.outputs.len(), now, i);
}

proof fn lemma_scheduled(c: CaptureView, n: nat, now: u64, i: int)
    requires
        c.has_numbers(),
        c.manager,
        n <= c.outputs.len(),
        0 <= i < c.outputs.len(),
    ensures
        ({
            let r = c.schedule_first(n, now);
            let before = c.outputs[i];
            let after = r.0.outputs[i];
            &&& r.0 == (CaptureView {
                outputs: r.0.outputs,
                next_frame_id: r.0.next_frame_id,
                ..c
            })
            &&& r.0.outputs.len() == c.outputs.len()
            &&& c.next_frame_id <= r.0.next_frame_id <= c.next_frame_id + n
            &&& i >= n || !is_wanted(before, now) ==> after == before
            &&& i < n && is_wanted(before, now) ==> {
                &&& after.pending matches Some(p) && p.reason is Background && p.info is None
                    && !p.copying && !p.y_invert && c.next_frame_id <= p.id < r.0.next_frame_id
                    && r.1.contains(
                    CaptureActionView::CaptureOutput { global: before.global, frame: p.id },
                )
                &&& after == (OutputView { pending: after.pending, ..before })
            }
        }),
    decreases n,
{
    if n > 0 {
        let m = (n - 1) as nat;
        lemma_scheduled(c, m, now, i);
        lemma_scheduled(c, m, now, n - 1);
        let (d, out) = c.schedule_first(m, now);
        if is_wanted(c.outputs[n - 1], now) {
            let (d2, out2) = d.start_capture(n - 1, CaptureReason::Background);
            let all = out + out2;
            if i == n - 1 {
                assert(all[all.len() - 1] == out2.last());
            } else if i < m && is_wanted(c.outputs[i], now) {
                let a = CaptureActionView::CaptureOutput {
                    global: c.outputs[i].global,
                    frame: d.outputs[i].pending->0.id,
                };
                let k = out.index_of(a);
                assert(all[k] == a);
            }
        }
    }
}

/// The wait until something is to be done is that of the output whose time
/// comes first, in whole milliseconds: no output's time comes before it is
/// over, and some output's time comes within a millisecond of it. It is for
/// ever, told as -1, if no output is waiting, or none is captured by itself.
pub proof fn law_the_wait_is_for_the_next_capture(c: CaptureView, now: u64)
    ensures
        ({
            let t = c.poll_timeout(now);
            let waits = |o: OutputView| o.name is Some && o.pending is None;
            let none = forall|j: int| 0 <= j < c.outputs.len() ==> !waits(#[trigger] c.outputs[j]);
            &&& t == -1 || 0 <= t <= i32::MAX
            &&& t == -1 <==> c.paused || !c.manager || none
            &&& t >= 0 ==> forall|j: int|
                0 <= j < c.outputs.len() && waits(#[trigger] c.outputs[j]) ==> t == 0 || now + t
                    * 1_000_000 <= c.outputs[j].next_due
            &&& 0 <= t < i32::MAX ==> exists|j: int|
                0 <= j < c.outputs.len() && waits(#[trigger] c.outputs[j])
                    && c.outputs[j].next_due < now + (t + 1) * 1_000_000
        }),
{
    lemma_least_wait(c.outputs, now);
}

proof fn lemma_least_wait(outputs: Seq<OutputView>, now: u64)
    ensures
        match CaptureView::least_wait(outputs, now) {
            None => forall|j: int|
                0 <= j < outputs.len() ==> (#[trigger] outputs[j]).name is None
                    || outputs[j].pending is Some,
            Some(d) => {
                &&& d >= 0
                &&& forall|j: int|
                    0 <= j < outputs.len() && (#[trigger] outputs[j]).name is Some
                        && outputs[j].pending is None ==> d == 0 || now + d <= outputs[j].next_due
                &&& exists|j: int|
                    0 <= j < outputs.len() && (#[trigger] outputs[j]).name is Some
                        && outputs[j].pending is None && outputs[j].next_due <= now + d
            },
        },
    decreases outputs.len(),
{
    if outputs.len() > 0 {
        let init = outputs.drop_last();
        lemma_least_wait(init, now);
        assert forall|j: int| 0 <= j < outputs.len() implies j == outputs.len() - 1
            || #[trigger] outputs[j] == init[j] by {}
        if let Some(a) = CaptureView::least_wait(init, now) {
            let k = choose|j: int|
                0 <= j < init.len() && (#[trigger] init[j]).name is Some && init[j].pending is None
                    && init[j].next_due <= now + a;
            assert(outputs[k] == init[k]);
        }
        assert(outputs[outputs.len() - 1] == outputs.last());
    }
}

// ------------------------------------------------------------- the globals --

/// Shared memory and the screencopy manager are bound once, the manager at the
/// version it has or at version 3 if it is newer.
pub proof fn law_shm_and_the_manager_are_bound_once(
    c: CaptureView,
    name: u32,
    version: u32,
    now: u64,
)
    ensures
        ({
            let shm = c.handle(
                CaptureInputView::Global { name, interface: "wl_shm"@, version },
                now,
            );
            let manager = c.handle(
                CaptureInputView::Global {
                    name,
                    interface: "zwlr_screencopy_manager_v1"@,
                    version,
                },
                now,
            );
            &&& shm.0 == (CaptureView { shm: true, ..c })
            &&& shm.1 == if c.shm {
                seq![]
            } else {
                seq![CaptureActionView::BindShm { global: name }]
            }
            &&& c.manager ==> manager.0 == c && manager.1.len() == 0
            &&& !c.manager ==> {
                let bound = manager.0.manager_version;
                &&& manager.0 == (CaptureView { manager: true, manager_version: bound, ..c })
                &&& version <= 3 ==> bound == version
                &&& version > 3 ==> bound == 3
                &&& manager.1 == seq![
                    CaptureActionView::BindManager { global: name, version: bound },
                ]
            }
        }),
{
    reveal_strlit("wl_shm");
    reveal_strlit("zwlr_screencopy_manager_v1");
    assert("wl_shm"@.len() != "zwlr_screencopy_manager_v1"@.len());
}

/// An output that can say its name is taken up, without one so far, and is due
/// at once; one that cannot is left alone, as is everything else.
pub proof fn law_outputs_that_can_say_their_name_are_taken_up(
    c: CaptureView,
    name: u32,
    interface: Seq<char>,
    version: u32,
    now: u64,
)
    requires
        interface != "wl_shm"@,
        interface != "zwlr_screencopy_manager_v1"@,
    ensures
        ({
            let r = c.handle(CaptureInputView::Global { name, interface, version }, now);
            &&& interface != "wl_output"@ || version < 4 ==> r.0 == c && r.1.len() == 0
            &&& interface == "wl_output"@ && version >= 4 ==> {
                let o = r.0.outputs.last();
                &&& r.0 == (CaptureView { outputs: r.0.outputs, ..c })
                &&& r.0.outputs.drop_last() == c.outputs
                &&& o.global == name && o.name is None && o.pending is None && o.buffer is None
                    && o.next_due == now
                &&& r.1 == seq![CaptureActionView::BindOutput { global: name, version: 4 }]
            }
        }),
{
    let r = c.handle(CaptureInputView::Global { name, interface, version }, now);
    if interface == "wl_output"@ && version >= 4 {
        assert(r.0.outputs.drop_last() =~= c.outputs);
    }
}

/// An output that goes is given up with what is under way on it and with its
/// buffer; the others stay, in their order, and the change is to be reported.
pub proof fn law_an_output_that_goes_takes_its_own_with_it(
    c: CaptureView,
    i: int,
    name: u32,
    now: u64,
)
    requires
        is_first_numbered(c, i, name),
    ensures
        ({
            let r = c.handle(CaptureInputView::GlobalRemove { name }, now);
            let o = c.outputs[i];
            &&& r.0 == (CaptureView {
                outputs: c.outputs.subrange(0, i) + c.outputs.subrange(
                    i + 1,
                    c.outputs.len() as int,
                ),
                outputs_dirty: true,
                ..c
            })
            &&& r.1.contains(CaptureActionView::ReleaseOutput { global: name })
            &&& o.pending matches Some(p) ==> r.1.contains(
                CaptureActionView::DestroyFrame { frame: p.id },
            )
            &&& o.buffer matches Some(b) ==> r.1.contains(
                CaptureActionView::DropBuffer { tag: b.tag },
            )
            &&& r.1.len() == 1 + (if o.pending is Some {
                1int
            } else {
                0
            }) + (if o.buffer is Some {
                1int
            } else {
                0
            })
        }),
{
    let p = crate::capture::has_global(name);
    crate::lists::lemma_position(c.outputs, p);
    assert(p(c.outputs[i]));
    let k = crate::lists::position(c.outputs, p)->Some_0;
    if k < i {
        assert(p(c.outputs[k]));
    }
    let r = c.handle(CaptureInputView::GlobalRemove { name }, now);
    assert(r.0.outputs =~= c.outputs.subrange(0, i) + c.outputs.subrange(
        i + 1,
        c.outputs.len() as int,
    ));
    let n: int = if c.outputs[i].pending is Some {
        1
    } else {
        0
    };
    assert(r.1[n] == (CaptureActionView::ReleaseOutput { global: name }));
    if c.outputs[i].pending is Some {
        assert(r.1[0] is DestroyFrame);
    }
    if c.outputs[i].buffer is Some {
        assert(r.1[n + 1] is DropBuffer);
    }
}

/// An output carries the name it was last told, and a name that is new is to be
/// reported.
pub proof fn law_an_output_carries_its_name(
    c: CaptureView,
    i: int,
    global: u32,
    name: Seq<char>,
    now: u64,
)
    requires
        is_first_numbered(c, i, global),
    ensures
        ({
            let r = c.handle(CaptureInputView::OutputName { global, name }, now);
            &&& only_output_differs(
                c,
                CaptureView { outputs_dirty: c.outputs_dirty, ..r.0 },
                i,
            )
            &&& r.0.outputs[i] == (OutputView { name: Some(name), ..c.outputs[i] })
            &&& r.0.outputs_dirty == (c.outputs_dirty || c.outputs[i].name != Some(name))
            &&& r.1.len() == 0
        }),
{
    let p = crate::capture::has_global(global);
    crate::lists::lemma_position(c.outputs, p);
    assert(p(c.outputs[i]));
    let k = crate::lists::position(c.outputs, p)->Some_0;
    if k < i {
        assert(p(c.outputs[k]));
    }
}

/// What is said of an output that is not there changes nothing.
pub proof fn law_unknown_outputs_are_ignored(
    c: CaptureView,
    global: u32,
    name: Seq<char>,
    now: u64,
)
    requires
        forall|j: int| 0 <= j < c.outputs.len() ==> (#[trigger] c.outputs[j]).global != global,
    ensures
        c.handle(CaptureInputView::GlobalRemove { name: global }, now).0 == c,
        c.handle(CaptureInputView::GlobalRemove { name: global }, now).1.len() == 0,
        c.handle(CaptureInputView::OutputName { global, name }, now).0 == c,
        c.handle(CaptureInputView::OutputName { global, name }, now).1.len() == 0,
        c.handle(CaptureInputView::OutputDone { global }, now).0 == c,
        c.handle(CaptureInputView::OutputDone { global }, now).1.len() == 0,
{
    crate::lists::lemma_position(c.outputs, crate::capture::has_global(global));
}

/// The set of outputs is reported once the globals have all been heard of, when
/// something about it changed and the names are not those reported last; what
/// was reported is remembered, and nothing is left to report.
pub proof fn law_a_changed_set_of_outputs_is_reported_once(c: CaptureView)
    ensures
        ({
            let (d, out) = c.publish_outputs();
            &&& !c.started || !c.outputs_dirty ==> d == c && out.len() == 0
            &&& c.started && c.outputs_dirty ==> {
                &&& d == (CaptureView {
                    outputs_dirty: false,
                    last_sent_outputs: d.last_sent_outputs,
                    ..c
                })
                &&& d.last_sent_outputs.to_multiset() == crate::capture_promises::names_in(
                    c.outputs,
                ).to_multiset()
                &&& d.last_sent_outputs == c.last_sent_outputs ==> out.len() == 0
                &&& d.last_sent_outputs != c.last_sent_outputs ==> out == seq![
                    CaptureActionView::Emit(MsgView::CaptureOutputs(d.last_sent_outputs)),
                ]
            }
            &&& d.publish_outputs() == (d, Seq::<CaptureActionView>::empty())
        }),
{
    crate::capture_promises::law_outputs_are_reported_sorted(c.outputs);
}

/// The end of what is said of an output is when the set may be reported.
pub proof fn law_the_set_is_reported_when_an_output_is_done(
    c: CaptureView,
    i: int,
    global: u32,
    now: u64,
)
    requires
        0 <= i < c.outputs.len(),
        c.outputs[i].global == global,
    ensures
        c.handle(CaptureInputView::OutputDone { global }, now) == c.publish_outputs(),
{
    let p = crate::capture::has_global(global);
    crate::lists::lemma_position(c.outputs, p);
    assert(p(c.outputs[i]));
}

/// Told to stop, or left alone, the thread stops and does nothing else.
pub proof fn law_the_thread_stops_when_told(c: CaptureView, now: u64)
    ensures
        c.handle(CaptureInputView::Shutdown, now).0 == (CaptureView { running: false, ..c }),
        c.handle(CaptureInputView::Shutdown, now).1.len() == 0,
        c.handle(CaptureInputView::ChannelClosed, now).0 == (CaptureView { running: false, ..c }),
        c.handle(CaptureInputView::ChannelClosed, now).1.len() == 0,
{
}

/// The thread can work with a compositor that has both a screencopy manager and
/// shared memory, and with no other; the manager is missed first.
pub proof fn law_both_globals_are_needed(c: CaptureView)
    ensures
        c.missing() is None <==> c.manager && c.shm,
        !c.manager ==> c.missing() == Some(
            "compositor does not support zwlr_screencopy_manager_v1"@,
        ),
        c.manager && !c.shm ==> c.missing() == Some("compositor does not advertise wl_shm"@),
{
}

/// At the end every buffer and every output is given back, and the manager if
/// there is one.
pub proof fn law_everything_is_given_back_at_the_end(c: CaptureView, i: int)
    requires
        0 <= i < c.outputs.len(),
    ensures
        c.tear_down().contains(
            CaptureActionView::ReleaseOutput { global: c.outputs[i].global },
        ),
        c.outputs[i].buffer matches Some(b) ==> c.tear_down().contains(
            CaptureActionView::DropBuffer { tag: b.tag },
        ),
        c.manager ==> c.tear_down().last() is DestroyManager,
{
    lemma_parting(c.outputs, i);
    let a = c.drop_all(c.outputs.len()).1;
    let b = CaptureView::parting(c.outputs);
    let whole = c.tear_down();
    let gone = CaptureActionView::ReleaseOutput { global: c.outputs[i].global };
    let k = b.index_of(gone);
    assert(whole[a.len() + k] == gone);
    if let Some(buffer) = c.outputs[i].buffer {
        let dropped = CaptureActionView::DropBuffer { tag: buffer.tag };
        let j = b.index_of(dropped);
        assert(whole[a.len() + j] == dropped);
    }
}

proof fn lemma_parting(outputs: Seq<OutputView>, i: int)
    requires
        0 <= i < outputs.len(),
    ensures
        CaptureView::parting(outputs).contains(
            CaptureActionView::ReleaseOutput { global: outputs[i].global },
        ),
        outputs[i].buffer matches Some(b) ==> CaptureView::parting(outputs).contains(
            CaptureActionView::DropBuffer { tag: b.tag },
        ),
    decreases outputs.len(),
{
    let init = outputs.drop_last();
    let a = CaptureView::parting(init);
    let b = CaptureView::buffer_drop(outputs.last());
    let whole = CaptureView::parting(outputs);
    if i < init.len() {
        lemma_parting(init, i);
        let gone = CaptureActionView::ReleaseOutput { global: outputs[i].global };
        assert(whole[a.index_of(gone)] == gone);
        if let Some(buffer) = outputs[i].buffer {
            let dropped = CaptureActionView::DropBuffer { tag: buffer.tag };
            assert(whole[a.index_of(dropped)] == dropped);
        }
    } else {
        assert(whole[(a.len() + b.len()) as int] == (CaptureActionView::ReleaseOutput {
            global: outputs[i].global,
        }));
        if outputs[i].buffer is Some {
            assert(whole[a.len() as int] == b[0]);
        }
    }
}

/// A thread starts with nothing bound, nothing under way and nothing paused; it
/// never makes a picture without a column.
pub proof fn law_a_thread_starts_with_nothing_bound(thumb_width: u32, min_interval: u64)
    ensures
        ({
            let c = CaptureView::fresh(thumb_width, min_interval);
            &&& c.wf() && c.has_numbers()
            &&& !c.shm && !c.manager && !c.paused && c.running && !c.started && !c.outputs_dirty
            &&& c.outputs.len() == 0 && c.last_sent_outputs.len() == 0
            &&& c.min_interval == min_interval
            &&& c.thumb_width >= 1 && (thumb_width >= 1 ==> c.thumb_width == thumb_width)
            &&& thumb_width == 0 ==> c.thumb_width == 1
        }),
{
}

/// A frame is converted only if its picture fits in memory: that is known
/// before it is made.
pub proof fn law_what_fits_is_known_beforehand(
    c: CaptureView,
    i: int,
    frame: u64,
    info: BufInfo,
    pixels: Seq<u8>,
    now: u64,
)
    requires
        c.wf(),
        is_under_way(c, i, frame),
        c.outputs[i].pending->0.info == Some(info),
        c.outputs[i].buffer matches Some(b) && b.info == info,
    ensures
        c.on_ready(frame, pixels, now).1[1] matches CaptureActionView::Emit(
            MsgView::Frame { output, thumb, reason },
        ) && (c.fits(frame) <==> thumb.rgba.len() <= isize::MAX),
{
    lemma_under_way(c, i, frame);
    let (w, h) = c.thumb_dimensions(info);
    if info.width > 0 && info.height > 0 {
        crate::pixels::law_thumb_keeps_the_aspect_ratio(
            info.width as int,
            info.height as int,
            c.thumb_width as int,
        );
    }
    assert(0 <= w * h) by (nonlinear_arith)
        requires
            0 <= w,
            0 <= h,
    ;
}

/// Without a screencopy manager nothing is captured, asked for or not.
pub proof fn law_nothing_is_captured_without_a_manager(
    c: CaptureView,
    i: int,
    output: Seq<char>,
    reason: CaptureReason,
    now: u64,
)
    requires
        !c.manager,
    ensures
        is_first_called(c, i, output) ==> c.handle(
            CaptureInputView::Request { output, reason },
            now,
        ) == (c, Seq::<CaptureActionView>::empty()),
        c.schedule(now) == (c, Seq::<CaptureActionView>::empty()),
{
    let p = crate::capture::is_called(output);
    crate::lists::lemma_position(c.outputs, p);
    if is_first_called(c, i, output) {
        assert(p(c.outputs[i]));
    }
}

/// The end of the offers asks for nothing if there is no shared memory, or if
/// the frame is being copied already.
pub proof fn law_a_frame_is_copied_once(c: CaptureView, i: int, frame: u64, now: u64)
    requires
        c.wf(),
        is_under_way(c, i, frame),
        c.outputs[i].pending->0.info is Some,
        !c.shm || c.outputs[i].pending->0.copying,
    ensures
        c.handle(CaptureInputView::BufferDone { frame }, now) == (
            c,
            Seq::<CaptureActionView>::empty(),
        ),
{
    lemma_under_way(c, i, frame);
}

/// What is said of a frame that is not under way on any output changes nothing
/// and asks for nothing.
pub proof fn law_a_frame_not_under_way_is_ignored(
    c: CaptureView,
    frame: u64,
    info: BufInfo,
    flags: u32,
    error: Seq<char>,
    pixels: Seq<u8>,
    now: u64,
)
    requires
        forall|j: int| !#[trigger] is_under_way(c, j, frame),
    ensures
        ({
            let none = (c, Seq::<CaptureActionView>::empty());
            &&& c.handle(CaptureInputView::Buffer { frame, info }, now) == none
            &&& c.handle(CaptureInputView::BufferDone { frame }, now) == none
            &&& c.handle(CaptureInputView::Flags { frame, flags }, now) == none
            &&& c.handle(CaptureInputView::Failed { frame }, now) == none
            &&& c.handle(CaptureInputView::AllocationFailed { frame, error }, now) == none
            &&& c.on_ready(frame, pixels, now) == none
            &&& c.fits(frame)
        }),
{
    crate::lists::lemma_position(c.outputs, crate::capture::awaits_frame(frame));
    if let Some(k) = c.by_frame(frame) {
        assert(is_under_way(c, k, frame));
    }
}

/// A buffer that no output has is no news when it is given back.
pub proof fn law_an_unknown_buffer_is_ignored(c: CaptureView, tag: u64, now: u64)
    requires
        forall|j: int|
            0 <= j < c.outputs.len() && (#[trigger] c.outputs[j]).buffer is Some
                ==> c.outputs[j].buffer->0.tag != tag,
    ensures
        c.handle(CaptureInputView::Released { tag }, now) == (
            c,
            Seq::<CaptureActionView>::empty(),
        ),
{
    crate::lists::lemma_position(c.outputs, crate::capture::owns_buffer(tag));
}

} // verus!
