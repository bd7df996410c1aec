//! The capture thread's decisions: which output to capture when, which buffer
//! to copy into, and what to report.
//!
//! A copy-with-damage request is kept pending for every output while captures
//! are not paused, throttled so that there is always a recent frame of whatever
//! is visible, at no cost when nothing repaints. A request goes ahead of that
//! and of the pause.
//!
//! The wayland objects live elsewhere and are named by numbers here: an output
//! by its global, a frame by the number it was asked for under, a buffer by the
//! frame it was first allocated for.

use crate::model::{CaptureReason, Msg, MsgView, Thumbnail, ThumbnailView};
use crate::pixels::{convert_downscale, thumb_size, PixFmt, ShmFormat};
use crate::text::{comes_before, same_text};
use vstd::prelude::*;

verus! {

/// The version of `wl_output` that says what an output is called.
pub const WANT_OUTPUT_VERSION: u32 = 4;

/// The newest version of the screencopy manager that is made use of.
pub const WANT_MANAGER_VERSION: u32 = 3;

/// The layout of a shared-memory buffer.
#[derive(Debug, Clone, Copy, PartialEq, Eq, Structural)]
pub struct BufInfo {
    pub format: ShmFormat,
    pub width: u32,
    pub height: u32,
    pub stride: u32,
}

/// A capture under way.
#[derive(Debug, Clone, Copy, PartialEq, Eq, Structural)]
pub struct PendingFrame {
    pub id: u64,
    pub reason: CaptureReason,
    /// The first supported layout the compositor offered.
    pub info: Option<BufInfo>,
    /// Whether the copy has been asked for.
    pub copying: bool,
    pub y_invert: bool,
}

/// A shared-memory buffer.
#[derive(Debug, Clone, Copy, PartialEq, Eq, Structural)]
pub struct ShmBuffer {
    /// The frame it was allocated for.
    pub tag: u64,
    pub info: BufInfo,
    /// Whether the compositor has given it back.
    pub released: bool,
}

/// An output of the compositor.
#[derive(Debug, PartialEq, Eq)]
pub struct CaptureOutput {
    pub global: u32,
    pub name: Option<String>,
    pub pending: Option<PendingFrame>,
    /// The earliest time for a new background capture, in nanoseconds.
    pub next_due: u128,
    pub buffer: Option<ShmBuffer>,
}

pub ghost struct OutputView {
    pub global: u32,
    pub name: Option<Seq<char>>,
    pub pending: Option<PendingFrame>,
    pub next_due: u128,
    pub buffer: Option<ShmBuffer>,
}

impl DeepView for CaptureOutput {
    type V = OutputView;

    open spec fn deep_view(&self) -> OutputView {
        OutputView {
            global: self.global,
            name: self.name.deep_view(),
            pending: self.pending,
            next_due: self.next_due,
            buffer: self.buffer,
        }
    }
}

/// What is to be done on the wayland connection, or told to the main loop.
#[derive(Debug, PartialEq, Eq)]
#[allow(inconsistent_fields)]
pub enum CaptureAction {
    BindShm { global: u32 },
    BindManager { global: u32, version: u32 },
    BindOutput { global: u32, version: u32 },
    ReleaseOutput { global: u32 },
    DestroyManager,
    /// Ask for a capture of the output, under this number.
    CaptureOutput { global: u32, frame: u64 },
    DestroyFrame { frame: u64 },
    /// Make a buffer of this layout, named after the frame, and answer with
    /// `allocated` or `allocation_failed`.
    Allocate { frame: u64, info: BufInfo },
    DropBuffer { tag: u64 },
    /// Have the frame copied into the buffer, at once or at the next damage.
    CopyFrame { frame: u64, tag: u64, with_damage: bool },
    Emit(Msg),
}

#[allow(inconsistent_fields)]
pub ghost enum CaptureActionView {
    BindShm { global: u32 },
    BindManager { global: u32, version: u32 },
    BindOutput { global: u32, version: u32 },
    ReleaseOutput { global: u32 },
    DestroyManager,
    CaptureOutput { global: u32, frame: u64 },
    DestroyFrame { frame: u64 },
    Allocate { frame: u64, info: BufInfo },
    DropBuffer { tag: u64 },
    CopyFrame { frame: u64, tag: u64, with_damage: bool },
    Emit(MsgView),
}

impl DeepView for CaptureAction {
    type V = CaptureActionView;

    open spec fn deep_view(&self) -> CaptureActionView {
        match self {
            CaptureAction::BindShm { global } => CaptureActionView::BindShm { global: *global },
            CaptureAction::BindManager { global, version } => CaptureActionView::BindManager {
                global: *global,
                version: *version,
            },
            CaptureAction::BindOutput { global, version } => CaptureActionView::BindOutput {
                global: *global,
                version: *version,
            },
            CaptureAction::ReleaseOutput { global } => CaptureActionView::ReleaseOutput {
                global: *global,
            },
            CaptureAction::DestroyManager => CaptureActionView::DestroyManager,
            CaptureAction::CaptureOutput { global, frame } => CaptureActionView::CaptureOutput {
                global: *global,
                frame: *frame,
            },
            CaptureAction::DestroyFrame { frame } => CaptureActionView::DestroyFrame {
                frame: *frame,
            },
            CaptureAction::Allocate { frame, info } => CaptureActionView::Allocate {
                frame: *frame,
                info: *info,
            },
            CaptureAction::DropBuffer { tag } => CaptureActionView::DropBuffer { tag: *tag },
            CaptureAction::CopyFrame { frame, tag, with_damage } => CaptureActionView::CopyFrame {
                frame: *frame,
                tag: *tag,
                with_damage: *with_damage,
            },
            CaptureAction::Emit(m) => CaptureActionView::Emit(m.deep_view()),
        }
    }
}

/// What the compositor, the main loop or a buffer allocation says.
#[derive(Debug, PartialEq, Eq)]
#[allow(inconsistent_fields)]
pub enum CaptureInput {
    /// The compositor offers a global.
    Global { name: u32, interface: String, version: u32 },
    GlobalRemove { name: u32 },
    OutputName { global: u32, name: String },
    OutputDone { global: u32 },
    /// A layout a frame can be copied in.
    Buffer { frame: u64, info: BufInfo },
    /// There are no more of those.
    BufferDone { frame: u64 },
    /// The flags of a frame; the lowest bit says that its rows are bottom up.
    Flags { frame: u64, flags: u32 },
    Failed { frame: u64 },
    /// The compositor has given a buffer back.
    Released { tag: u64 },
    Allocated { frame: u64 },
    AllocationFailed { frame: u64, error: String },
    /// One capture as soon as possible, whatever the throttle and the pause.
    Request { output: String, reason: CaptureReason },
    SetPaused(bool),
    Shutdown,
    /// The main loop is gone.
    ChannelClosed,
}

#[allow(inconsistent_fields)]
pub ghost enum CaptureInputView {
    Global { name: u32, interface: Seq<char>, version: u32 },
    GlobalRemove { name: u32 },
    OutputName { global: u32, name: Seq<char> },
    OutputDone { global: u32 },
    Buffer { frame: u64, info: BufInfo },
    BufferDone { frame: u64 },
    Flags { frame: u64, flags: u32 },
    Failed { frame: u64 },
    Released { tag: u64 },
    Allocated { frame: u64 },
    AllocationFailed { frame: u64, error: Seq<char> },
    Request { output: Seq<char>, reason: CaptureReason },
    SetPaused(bool),
    Shutdown,
    ChannelClosed,
}

impl DeepView for CaptureInput {
    type V = CaptureInputView;

    open spec fn deep_view(&self) -> CaptureInputView {
        match self {
            CaptureInput::Global { name, interface, version } => CaptureInputView::Global {
                name: *name,
                interface: interface@,
                version: *version,
            },
            CaptureInput::GlobalRemove { name } => CaptureInputView::GlobalRemove { name: *name },
            CaptureInput::OutputName { global, name } => CaptureInputView::OutputName {
                global: *global,
                name: name@,
            },
            CaptureInput::OutputDone { global } => CaptureInputView::OutputDone { global: *global },
            CaptureInput::Buffer { frame, info } => CaptureInputView::Buffer {
                frame: *frame,
                info: *info,
            },
            CaptureInput::BufferDone { frame } => CaptureInputView::BufferDone { frame: *frame },
            CaptureInput::Flags { frame, flags } => CaptureInputView::Flags {
                frame: *frame,
                flags: *flags,
            },
            CaptureInput::Failed { frame } => CaptureInputView::Failed { frame: *frame },
            CaptureInput::Released { tag } => CaptureInputView::Released { tag: *tag },
            CaptureInput::Allocated { frame } => CaptureInputView::Allocated { frame: *frame },
            CaptureInput::AllocationFailed { frame, error } => CaptureInputView::AllocationFailed {
                frame: *frame,
                error: error@,
            },
            CaptureInput::Request { output, reason } => CaptureInputView::Request {
                output: output@,
                reason: *reason,
            },
            CaptureInput::SetPaused(p) => CaptureInputView::SetPaused(*p),
            CaptureInput::Shutdown => CaptureInputView::Shutdown,
            CaptureInput::ChannelClosed => CaptureInputView::ChannelClosed,
        }
    }
}

/// The capture thread's state.
#[derive(Debug, PartialEq, Eq)]
pub struct Capture {
    /// Whether there is shared memory to copy into.
    pub shm: bool,
    /// Whether there is a screencopy manager, and its version.
    pub manager: bool,
    pub manager_version: u32,
    pub outputs: Vec<CaptureOutput>,
    pub thumb_width: u32,
    /// The least time between background captures of one output, in
    /// nanoseconds.
    pub min_interval: u64,
    pub paused: bool,
    pub running: bool,
    pub next_frame_id: u64,
    pub last_sent_outputs: Vec<String>,
    pub outputs_dirty: bool,
    /// Whether the globals have all been heard of: until then the set of
    /// outputs is not reported.
    pub started: bool,
}

pub ghost struct CaptureView {
    pub shm: bool,
    pub manager: bool,
    pub manager_version: u32,
    pub outputs: Seq<OutputView>,
    pub thumb_width: u32,
    pub min_interval: u64,
    pub paused: bool,
    pub running: bool,
    pub next_frame_id: u64,
    pub last_sent_outputs: Seq<Seq<char>>,
    pub outputs_dirty: bool,
    pub started: bool,
}

impl DeepView for Capture {
    type V = CaptureView;

    open spec fn deep_view(&self) -> CaptureView {
        CaptureView {
            shm: self.shm,
            manager: self.manager,
            manager_version: self.manager_version,
            outputs: self.outputs.deep_view(),
            thumb_width: self.thumb_width,
            min_interval: self.min_interval,
            paused: self.paused,
            running: self.running,
            next_frame_id: self.next_frame_id,
            last_sent_outputs: self.last_sent_outputs.deep_view(),
            outputs_dirty: self.outputs_dirty,
            started: self.started,
        }
    }
}

/// The state after an operation, and what is to be done.
pub type CaptureTurn = (CaptureView, Seq<CaptureActionView>);

/// What an output is called in messages.
pub open spec fn label_of(o: OutputView) -> Seq<char> {
    match o.name {
        Some(n) => n,
        None => "<unnamed>"@,
    }
}

/// Having this global number.
pub open spec fn has_global(global: u32) -> spec_fn(OutputView) -> bool {
    |o: OutputView| o.global == global
}

/// Being called this.
pub open spec fn is_called(name: Seq<char>) -> spec_fn(OutputView) -> bool {
    |o: OutputView| o.name == Some(name)
}

/// Waiting for this frame.
pub open spec fn awaits_frame(id: u64) -> spec_fn(OutputView) -> bool {
    |o: OutputView| o.pending is Some && o.pending->0.id == id
}

/// Copying into this buffer.
pub open spec fn owns_buffer(tag: u64) -> spec_fn(OutputView) -> bool {
    |o: OutputView| o.buffer is Some && o.buffer->0.tag == tag
}

/// `s` with `t` put in its place.
pub open spec fn put_text(s: Seq<Seq<char>>, t: Seq<char>) -> Seq<Seq<char>>
    decreases s.len(),
{
    if s.len() == 0 || !crate::text::text_before(t, s.last()) {
        s.push(t)
    } else {
        put_text(s.drop_last(), t).push(s.last())
    }
}

/// The names of the outputs that have one, sorted.
pub open spec fn sorted_names(outputs: Seq<OutputView>) -> Seq<Seq<char>>
    decreases outputs.len(),
{
    if outputs.len() == 0 {
        seq![]
    } else {
        match outputs.last().name {
            Some(n) => put_text(sorted_names(outputs.drop_last()), n),
            None => sorted_names(outputs.drop_last()),
        }
    }
}

impl CaptureView {
    /// What holds of every state: no two captures under way share a number,
    /// numbers still to be given are larger than those, and only layouts that
    /// can be converted are remembered.
    pub open spec fn wf(self) -> bool {
        &&& forall|i: int|
            0 <= i < self.outputs.len() && (#[trigger] self.outputs[i]).pending is Some
                ==> self.outputs[i].pending->0.id < self.next_frame_id
        &&& forall|i: int, j: int|
            0 <= i < j < self.outputs.len() && (#[trigger] self.outputs[i]).pending is Some && (
            #[trigger] self.outputs[j]).pending is Some ==> self.outputs[i].pending->0.id
                != self.outputs[j].pending->0.id
        &&& forall|i: int|
            0 <= i < self.outputs.len() && (#[trigger] self.outputs[i]).pending is Some
                && self.outputs[i].pending->0.info is Some ==> crate::pixels::layout_of(
                self.outputs[i].pending->0.info->0.format,
            ) is Some
    }

    /// Whether there are frame numbers left for a capture of every output.
    pub open spec fn has_numbers(self) -> bool {
        self.next_frame_id + self.outputs.len() <= u64::MAX
    }

    /// The state of a thread that has just started.
    pub open spec fn fresh(thumb_width: u32, min_interval: u64) -> CaptureView {
        CaptureView {
            shm: false,
            manager: false,
            manager_version: 0,
            outputs: seq![],
            thumb_width: if thumb_width < 1 {
                1
            } else {
                thumb_width
            },
            min_interval,
            paused: false,
            running: true,
            next_frame_id: 1,
            last_sent_outputs: seq![],
            outputs_dirty: false,
            started: false,
        }
    }

    pub open spec fn with_output(self, i: int, o: OutputView) -> CaptureView {
        CaptureView { outputs: self.outputs.update(i, o), ..self }
    }

    pub open spec fn by_frame(self, id: u64) -> Option<int> {
        crate::lists::position(self.outputs, awaits_frame(id))
    }

    /// When the throttle next lets a background capture through.
    pub open spec fn due_after(self, now: u64) -> u128 {
        (now + self.min_interval) as u128
    }

    /// Without the capture under way on output `i`; nothing is reported.
    pub open spec fn drop_pending(self, i: int) -> CaptureTurn {
        match self.outputs[i].pending {
            Some(p) => (
                self.with_output(i, OutputView { pending: None, ..self.outputs[i] }),
                seq![CaptureActionView::DestroyFrame { frame: p.id }],
            ),
            None => (self, seq![]),
        }
    }

    /// With a capture of output `i` under way, in place of any other.
    pub open spec fn start_capture(self, i: int, reason: CaptureReason) -> CaptureTurn {
        if !self.manager {
            (self, seq![])
        } else {
            let (c, out) = self.drop_pending(i);
            let id = self.next_frame_id;
            let p = PendingFrame { id, reason, info: None, copying: false, y_invert: false };
            (
                CaptureView {
                    next_frame_id: (id + 1) as u64,
                    ..c.with_output(i, OutputView { pending: Some(p), ..c.outputs[i] })
                },
                out.push(
                    CaptureActionView::CaptureOutput {
                        global: self.outputs[i].global,
                        frame: id,
                    },
                ),
            )
        }
    }

    /// The capture under way on output `i` has come to nothing.
    pub open spec fn fail(self, i: int, error: Seq<char>, now: u64) -> CaptureTurn {
        let o = self.outputs[i];
        match o.pending {
            Some(p) => (
                self.with_output(
                    i,
                    OutputView { pending: None, next_due: self.due_after(now), ..o },
                ),
                seq![
                    CaptureActionView::DestroyFrame { frame: p.id },
                    CaptureActionView::Emit(
                        MsgView::CaptureFailed { output: label_of(o), reason: p.reason, error },
                    ),
                ],
            ),
            None => (self, seq![]),
        }
    }

    /// With the frame on output `i` being copied into the buffer it has.
    pub open spec fn copy_into(self, i: int, b: ShmBuffer) -> CaptureTurn {
        let o = self.outputs[i];
        let p = o.pending->0;
        (
            self.with_output(
                i,
                OutputView {
                    buffer: Some(ShmBuffer { released: false, ..b }),
                    pending: Some(PendingFrame { copying: true, ..p }),
                    ..o
                },
            ),
            seq![
                CaptureActionView::CopyFrame {
                    frame: p.id,
                    tag: b.tag,
                    with_damage: p.reason is Background && self.manager_version >= 2,
                },
            ],
        )
    }

    /// The layouts are known: the copy is asked for, into the buffer there is
    /// if it fits and the compositor gave it back, else into a new one.
    pub open spec fn begin_copy(self, i: int, now: u64) -> CaptureTurn {
        let o = self.outputs[i];
        if !self.shm || o.pending is None || o.pending->0.copying || o.pending->0.info is None {
            (self, seq![])
        } else {
            let info = o.pending->0.info->0;
            match o.buffer {
                Some(b) => if b.info == info && b.released {
                    self.copy_into(i, b)
                } else {
                    let (c, out) = self.with_output(
                        i,
                        OutputView { buffer: None, ..o },
                    ).ask_for_buffer(i, now);
                    (c, seq![CaptureActionView::DropBuffer { tag: b.tag }] + out)
                },
                None => self.ask_for_buffer(i, now),
            }
        }
    }

    /// A buffer for the frame on output `i` is asked for, unless it would hold
    /// nothing.
    pub open spec fn ask_for_buffer(self, i: int, now: u64) -> CaptureTurn {
        let p = self.outputs[i].pending->0;
        let info = p.info->0;
        if info.stride == 0 || info.height == 0 {
            self.fail(i, "zero-sized capture buffer"@, now)
        } else {
            (self, seq![CaptureActionView::Allocate { frame: p.id, info }])
        }
    }

    /// The buffer that was asked for is there.
    pub open spec fn allocated(self, frame: u64) -> CaptureTurn {
        match self.by_frame(frame) {
            Some(i) => {
                let p = self.outputs[i].pending->0;
                if p.info is Some && !p.copying && self.outputs[i].buffer is None {
                    self.copy_into(i, ShmBuffer { tag: frame, info: p.info->0, released: true })
                } else {
                    (self, seq![CaptureActionView::DropBuffer { tag: frame }])
                }
            },
            None => (self, seq![CaptureActionView::DropBuffer { tag: frame }]),
        }
    }

    /// A layout is offered for a frame: the first supported one is kept. Before
    /// version 3 nothing else follows, so it is also the cue for the copy.
    pub open spec fn on_buffer(self, frame: u64, info: BufInfo, now: u64) -> CaptureTurn {
        match self.by_frame(frame) {
            Some(i) => if crate::pixels::layout_of(info.format) is None {
                (self, seq![])
            } else {
                let o = self.outputs[i];
                let p = o.pending->0;
                let c = if p.info is None {
                    self.with_output(
                        i,
                        OutputView { pending: Some(PendingFrame { info: Some(info), ..p }), ..o },
                    )
                } else {
                    self
                };
                if self.manager_version < 3 {
                    c.begin_copy(i, now)
                } else {
                    (c, seq![])
                }
            },
            None => (self, seq![]),
        }
    }

    pub open spec fn on_buffer_done(self, frame: u64, now: u64) -> CaptureTurn {
        match self.by_frame(frame) {
            Some(i) => if self.outputs[i].pending->0.info is Some {
                self.begin_copy(i, now)
            } else {
                self.fail(i, "compositor offered no supported shm format"@, now)
            },
            None => (self, seq![]),
        }
    }

    pub open spec fn on_flags(self, frame: u64, flags: u32) -> CaptureTurn {
        match self.by_frame(frame) {
            Some(i) => {
                let o = self.outputs[i];
                let p = PendingFrame { y_invert: flags % 2 == 1, ..o.pending->0 };
                (self.with_output(i, OutputView { pending: Some(p), ..o }), seq![])
            },
            None => (self, seq![]),
        }
    }

    /// The thumbnail of a frame of this layout.
    pub open spec fn thumbnail_of(
        self,
        pixels: Seq<u8>,
        info: BufInfo,
        y_invert: bool,
        now: u64,
    ) -> ThumbnailView {
        let (w, h) = self.thumb_dimensions(info);
        let source = crate::pixels::Source {
            bytes: pixels,
            w: info.width as int,
            h: info.height as int,
            stride: info.stride as int,
            fmt: crate::pixels::layout_of(info.format)->0,
            y_invert,
        };
        ThumbnailView {
            width: w as u32,
            height: h as u32,
            rgba: source.thumbnail(w, h),
            taken_at: now,
        }
    }

    pub open spec fn thumb_dimensions(self, info: BufInfo) -> (int, int) {
        if info.width == 0 || info.height == 0 {
            (0, 0)
        } else {
            let w = crate::pixels::thumb_width_of(info.width as int, self.thumb_width as int);
            (w, crate::pixels::thumb_height_of(info.width as int, info.height as int, w))
        }
    }

    /// Whether the thumbnail of the frame fits in memory at all.
    pub open spec fn fits(self, frame: u64) -> bool {
        match self.by_frame(frame) {
            Some(i) => match self.outputs[i].pending->0.info {
                Some(info) => {
                    let (w, h) = self.thumb_dimensions(info);
                    w * h * 4 <= isize::MAX
                },
                None => true,
            },
            None => true,
        }
    }

    /// What is reported of a frame that has been copied to `pixels`.
    pub open spec fn report(
        self,
        o: OutputView,
        p: PendingFrame,
        pixels: Seq<u8>,
        now: u64,
    ) -> MsgView {
        let failed = |error: Seq<char>|
            MsgView::CaptureFailed { output: label_of(o), reason: p.reason, error };
        match p.info {
            None => failed("no supported shm buffer format"@),
            Some(info) => if o.buffer is Some && o.buffer->0.info == info {
                MsgView::Frame {
                    output: label_of(o),
                    thumb: self.thumbnail_of(pixels, info, p.y_invert, now),
                    reason: p.reason,
                }
            } else {
                failed("capture buffer vanished"@)
            },
        }
    }

    /// A frame has been copied; `pixels` is what its output's buffer holds.
    pub open spec fn on_ready(self, frame: u64, pixels: Seq<u8>, now: u64) -> CaptureTurn {
        match self.by_frame(frame) {
            Some(i) => {
                let o = self.outputs[i];
                let p = o.pending->0;
                (
                    self.with_output(
                        i,
                        OutputView { pending: None, next_due: self.due_after(now), ..o },
                    ),
                    seq![
                        CaptureActionView::DestroyFrame { frame: p.id },
                        CaptureActionView::Emit(self.report(o, p, pixels, now)),
                    ],
                )
            },
            None => (self, seq![]),
        }
    }

    pub open spec fn on_failed(self, frame: u64, now: u64) -> CaptureTurn {
        match self.by_frame(frame) {
            Some(i) => self.fail(i, "compositor reported frame copy failure"@, now),
            None => (self, seq![]),
        }
    }

    pub open spec fn on_released(self, tag: u64) -> CaptureTurn {
        match crate::lists::position(self.outputs, owns_buffer(tag)) {
            Some(i) => {
                let o = self.outputs[i];
                let b = ShmBuffer { released: true, ..o.buffer->0 };
                (self.with_output(i, OutputView { buffer: Some(b), ..o }), seq![])
            },
            None => (self, seq![]),
        }
    }

    pub open spec fn on_allocation_failed(
        self,
        frame: u64,
        error: Seq<char>,
        now: u64,
    ) -> CaptureTurn {
        match self.by_frame(frame) {
            Some(i) => self.fail(i, error, now),
            None => (self, seq![]),
        }
    }

    /// Whether a background capture of the output is to be started.
    pub open spec fn is_due(o: OutputView, now: u64) -> bool {
        o.name is Some && o.pending is None && o.next_due <= now
    }

    /// Background captures of the first `n` outputs, as far as they are due.
    pub open spec fn schedule_first(self, n: nat, now: u64) -> CaptureTurn
        decreases n,
    {
        if n == 0 {
            (self, seq![])
        } else {
            let (c, out) = self.schedule_first((n - 1) as nat, now);
            if Self::is_due(self.outputs[n - 1], now) {
                let (c2, out2) = c.start_capture(n - 1, CaptureReason::Background);
                (c2, out + out2)
            } else {
                (c, out)
            }
        }
    }

    pub open spec fn schedule(self, now: u64) -> CaptureTurn {
        if self.paused || !self.manager {
            (self, seq![])
        } else {
            self.schedule_first(self.outputs.len(), now)
        }
    }

    /// How long output `o` has to wait for its next background capture, in
    /// nanoseconds, if it waits for one.
    pub open spec fn wait_of(o: OutputView, now: u64) -> Option<int> {
        if o.name is None || o.pending is Some {
            None
        } else if o.next_due <= now {
            Some(0)
        } else {
            Some(o.next_due - now)
        }
    }

    /// The least of those waits.
    pub open spec fn least_wait(outputs: Seq<OutputView>, now: u64) -> Option<int>
        decreases outputs.len(),
    {
        if outputs.len() == 0 {
            None
        } else {
            match (
                Self::least_wait(outputs.drop_last(), now),
                Self::wait_of(outputs.last(), now),
            ) {
                (Some(a), Some(b)) => Some(
                    if a <= b {
                        a
                    } else {
                        b
                    },
                ),
                (Some(a), None) => Some(a),
                (None, b) => b,
            }
        }
    }

    /// Milliseconds until the next background capture is due; -1 for never.
    pub open spec fn poll_timeout(self, now: u64) -> int {
        if self.paused || !self.manager {
            -1
        } else {
            match Self::least_wait(self.outputs, now) {
                None => -1,
                Some(d) => if d / 1_000_000 > i32::MAX {
                    i32::MAX as int
                } else {
                    d / 1_000_000
                },
            }
        }
    }

    /// The set of outputs is reported when it has changed.
    pub open spec fn publish_outputs(self) -> CaptureTurn {
        if !self.started || !self.outputs_dirty {
            (self, seq![])
        } else {
            let names = sorted_names(self.outputs);
            let c = CaptureView { outputs_dirty: false, ..self };
            if names == self.last_sent_outputs {
                (c, seq![])
            } else {
                (
                    CaptureView { last_sent_outputs: names, ..c },
                    seq![CaptureActionView::Emit(MsgView::CaptureOutputs(names))],
                )
            }
        }
    }

    /// Without the background captures under way on the first `n` outputs: they
    /// would complete once the panel is mapped, and show it.
    pub open spec fn drop_background(self, n: nat) -> CaptureTurn
        decreases n,
    {
        if n == 0 {
            (self, seq![])
        } else {
            let (c, out) = self.drop_background((n - 1) as nat);
            let p = self.outputs[n - 1].pending;
            if p is Some && p->0.reason is Background {
                let (c2, out2) = c.drop_pending(n - 1);
                (c2, out + out2)
            } else {
                (c, out)
            }
        }
    }

    pub open spec fn set_paused(self, paused: bool, now: u64) -> CaptureTurn {
        if self.paused == paused {
            (self, seq![])
        } else if paused {
            CaptureView { paused, ..self }.drop_background(self.outputs.len())
        } else {
            (
                CaptureView {
                    paused,
                    outputs: self.outputs.map_values(
                        |o: OutputView| OutputView { next_due: now as u128, ..o },
                    ),
                    ..self
                },
                seq![],
            )
        }
    }

    pub open spec fn on_request(self, output: Seq<char>, reason: CaptureReason) -> CaptureTurn {
        match crate::lists::position(self.outputs, is_called(output)) {
            Some(i) => self.start_capture(i, reason),
            None => (
                self,
                seq![
                    CaptureActionView::Emit(
                        MsgView::CaptureFailed { output, reason, error: "unknown output"@ },
                    ),
                ],
            ),
        }
    }

    pub open spec fn on_global(
        self,
        name: u32,
        interface: Seq<char>,
        version: u32,
        now: u64,
    ) -> CaptureTurn {
        if interface == "wl_shm"@ {
            if self.shm {
                (self, seq![])
            } else {
                (
                    CaptureView { shm: true, ..self },
                    seq![CaptureActionView::BindShm { global: name }],
                )
            }
        } else if interface == "zwlr_screencopy_manager_v1"@ {
            if self.manager {
                (self, seq![])
            } else {
                let v = if version < WANT_MANAGER_VERSION {
                    version
                } else {
                    WANT_MANAGER_VERSION
                };
                (
                    CaptureView { manager: true, manager_version: v, ..self },
                    seq![CaptureActionView::BindManager { global: name, version: v }],
                )
            }
        } else if interface == "wl_output"@ && version >= WANT_OUTPUT_VERSION {
            let o = OutputView {
                global: name,
                name: None,
                pending: None,
                next_due: now as u128,
                buffer: None,
            };
            (
                CaptureView { outputs: self.outputs.push(o), ..self },
                seq![
                    CaptureActionView::BindOutput { global: name, version: WANT_OUTPUT_VERSION },
                ],
            )
        } else {
            (self, seq![])
        }
    }

    /// The buffer of output `o` going with it.
    pub open spec fn buffer_drop(o: OutputView) -> Seq<CaptureActionView> {
        match o.buffer {
            Some(b) => seq![CaptureActionView::DropBuffer { tag: b.tag }],
            None => seq![],
        }
    }

    pub open spec fn on_global_remove(self, name: u32) -> CaptureTurn {
        match crate::lists::position(self.outputs, has_global(name)) {
            Some(i) => {
                let o = self.outputs[i];
                let (c, out) = self.drop_pending(i);
                (
                    CaptureView { outputs: c.outputs.remove(i), outputs_dirty: true, ..c },
                    out.push(CaptureActionView::ReleaseOutput { global: o.global })
                        + Self::buffer_drop(o),
                )
            },
            None => (self, seq![]),
        }
    }

    pub open spec fn on_output_name(self, global: u32, name: Seq<char>) -> CaptureTurn {
        match crate::lists::position(self.outputs, has_global(global)) {
            Some(i) => if self.outputs[i].name == Some(name) {
                (self, seq![])
            } else {
                (
                    CaptureView {
                        outputs_dirty: true,
                        ..self.with_output(
                            i,
                            OutputView { name: Some(name), ..self.outputs[i] },
                        )
                    },
                    seq![],
                )
            },
            None => (self, seq![]),
        }
    }

    pub open spec fn on_output_done(self, global: u32) -> CaptureTurn {
        match crate::lists::position(self.outputs, has_global(global)) {
            Some(_) => self.publish_outputs(),
            None => (self, seq![]),
        }
    }

    pub open spec fn handle(self, input: CaptureInputView, now: u64) -> CaptureTurn {
        match input {
            CaptureInputView::Global { name, interface, version } => self.on_global(
                name,
                interface,
                version,
                now,
            ),
            CaptureInputView::GlobalRemove { name } => self.on_global_remove(name),
            CaptureInputView::OutputName { global, name } => self.on_output_name(global, name),
            CaptureInputView::OutputDone { global } => self.on_output_done(global),
            CaptureInputView::Buffer { frame, info } => self.on_buffer(frame, info, now),
            CaptureInputView::BufferDone { frame } => self.on_buffer_done(frame, now),
            CaptureInputView::Flags { frame, flags } => self.on_flags(frame, flags),
            CaptureInputView::Failed { frame } => self.on_failed(frame, now),
            CaptureInputView::Released { tag } => self.on_released(tag),
            CaptureInputView::Allocated { frame } => self.allocated(frame),
            CaptureInputView::AllocationFailed { frame, error } => self.on_allocation_failed(
                frame,
                error,
                now,
            ),
            CaptureInputView::Request { output, reason } => self.on_request(output, reason),
            CaptureInputView::SetPaused(p) => self.set_paused(p, now),
            CaptureInputView::Shutdown => (CaptureView { running: false, ..self }, seq![]),
            CaptureInputView::ChannelClosed => (CaptureView { running: false, ..self }, seq![]),
        }
    }

    /// Why the thread cannot work with this compositor, if it cannot.
    pub open spec fn missing(self) -> Option<Seq<char>> {
        if !self.manager {
            Some("compositor does not support zwlr_screencopy_manager_v1"@)
        } else if !self.shm {
            Some("compositor does not advertise wl_shm"@)
        } else {
            None
        }
    }

    /// The captures under way on the first `n` outputs come to an end.
    pub open spec fn drop_all(self, n: nat) -> CaptureTurn
        decreases n,
    {
        if n == 0 {
            (self, seq![])
        } else {
            let (c, out) = self.drop_all((n - 1) as nat);
            let (c2, out2) = c.drop_pending(n - 1);
            (c2, out + out2)
        }
    }

    /// What goes with these outputs at the end.
    pub open spec fn parting(outputs: Seq<OutputView>) -> Seq<CaptureActionView>
        decreases outputs.len(),
    {
        if outputs.len() == 0 {
            seq![]
        } else {
            Self::parting(outputs.drop_last()) + Self::buffer_drop(outputs.last()) + seq![
                CaptureActionView::ReleaseOutput { global: outputs.last().global },
            ]
        }
    }

    /// What is left to do when the thread ends.
    pub open spec fn tear_down(self) -> Seq<CaptureActionView> {
        self.drop_all(self.outputs.len()).1 + Self::parting(self.outputs) + if self.manager {
            seq![CaptureActionView::DestroyManager]
        } else {
            seq![]
        }
    }
}

fn emit(out: &mut Vec<CaptureAction>, a: CaptureAction)
    ensures
        final(out).deep_view() == old(out).deep_view().push(a.deep_view()),
{
    out.push(a);
    assert(out.deep_view() =~= old(out).deep_view().push(a.deep_view()));
}

fn is_name(t: &Option<String>, name: &str) -> (r: bool)
    ensures
        r == (t.deep_view() == Some(name@)),
{
    match t {
        Some(n) => same_text(n, name),
        None => false,
    }
}

fn equal_texts(a: &Vec<String>, b: &Vec<String>) -> (r: bool)
    ensures
        r == (a.deep_view() == b.deep_view()),
{
    if a.len() != b.len() {
        assert(a.deep_view().len() != b.deep_view().len());
        return false;
    }
    for i in 0..a.len()
        invariant
            a@.len() == b@.len(),
            forall|k: int| 0 <= k < i ==> #[trigger] a.deep_view()[k] == b.deep_view()[k],
    {
        assert(a.deep_view()[i as int] == a@[i as int]@);
        assert(b.deep_view()[i as int] == b@[i as int]@);
        if !same_text(&a[i], &b[i]) {
            return false;
        }
    }
    assert(a.deep_view() =~= b.deep_view());
    true
}

fn copy_texts(v: &Vec<String>) -> (r: Vec<String>)
    ensures
        r.deep_view() == v.deep_view(),
{
    let mut r: Vec<String> = Vec::new();
    for i in 0..v.len()
        invariant
            r@.len() == i,
            forall|k: int| 0 <= k < i ==> #[trigger] r.deep_view()[k] == v.deep_view()[k],
    {
        let ghost before = r.deep_view();
        r.push(v[i].clone());
        assert(r.deep_view() =~= before.push(v@[i as int]@));
        assert(v.deep_view()[i as int] == v@[i as int]@);
    }
    assert(r.deep_view() =~= v.deep_view());
    r
}

proof fn lemma_put_text_at(s: Seq<Seq<char>>, t: Seq<char>, k: int)
    requires
        0 <= k <= s.len(),
        forall|i: int| k <= i < s.len() ==> crate::text::text_before(t, #[trigger] s[i]),
        k == 0 || !crate::text::text_before(t, s[k - 1]),
    ensures
        put_text(s, t) == s.insert(k, t),
    decreases s.len(),
{
    if k == s.len() {
        assert(s.insert(k, t) =~= s.push(t));
    } else {
        assert(crate::text::text_before(t, s[s.len() - 1]));
        lemma_put_text_at(s.drop_last(), t, k);
        assert(s.drop_last().insert(k, t).push(s.last()) =~= s.insert(k, t));
    }
}

fn insert_sorted(names: &mut Vec<String>, name: String)
    ensures
        final(names).deep_view() == put_text(old(names).deep_view(), name@),
{
    let ghost sorted = names.deep_view();
    let mut k: usize = names.len();
    while k > 0 && comes_before(&name, &names[k - 1])
        invariant
            k <= names@.len(),
            sorted == names.deep_view(),
            forall|j: int|
                k <= j < sorted.len() ==> crate::text::text_before(name@, #[trigger] sorted[j]),
        decreases k,
    {
        assert(sorted[k - 1] == names@[k - 1]@);
        k = k - 1;
    }
    proof {
        if k > 0 {
            assert(sorted[k - 1] == names@[k - 1]@);
        }
        lemma_put_text_at(sorted, name@, k as int);
    }
    let ghost text = name@;
    names.insert(k, name);
    assert(names.deep_view() =~= sorted.insert(k as int, text));
}

impl Capture {
    /// The state of a thread that has just started. `min_interval` is the least
    /// time between background captures of one output, in nanoseconds.
    pub fn new(thumb_width: u32, min_interval: u64) -> (r: Capture)
        ensures
            r.deep_view() == CaptureView::fresh(thumb_width, min_interval),
            r.deep_view().wf(),
    {
        let outputs: Vec<CaptureOutput> = Vec::new();
        let last_sent_outputs: Vec<String> = Vec::new();
        assert(outputs.deep_view() =~= seq![]);
        assert(last_sent_outputs.deep_view() =~= seq![]);
        Capture {
            shm: false,
            manager: false,
            manager_version: 0,
            outputs,
            thumb_width: if thumb_width < 1 {
                1
            } else {
                thumb_width
            },
            min_interval,
            paused: false,
            running: true,
            next_frame_id: 1,
            last_sent_outputs,
            outputs_dirty: false,
            started: false,
        }
    }

    pub fn is_running(&self) -> (r: bool)
        ensures
            r == self.deep_view().running,
    {
        self.running
    }

    fn find_by_global(&self, global: u32) -> (r: Option<usize>)
        ensures
            (match r {
                Some(i) => Some(i as int),
                None => None,
            }) == crate::lists::position(self.deep_view().outputs, has_global(global)),
            r matches Some(i) ==> i < self.outputs@.len() && has_global(global)(
                self.deep_view().outputs[i as int],
            ),
    {
        let ghost all = self.deep_view().outputs;
        let ghost p = has_global(global);
        for i in 0..self.outputs.len()
            invariant
                all == self.deep_view().outputs,
                p == has_global(global),
                forall|j: int| 0 <= j < i ==> !p(#[trigger] all[j]),
        {
            assert(all[i as int] == self.outputs@[i as int].deep_view());
            if self.outputs[i].global == global {
                proof {
                    crate::lists::lemma_position_is(all, p, i as int);
                }
                return Some(i);
            }
        }
        proof {
            crate::lists::lemma_position_none(all, p);
        }
        None
    }

    fn find_by_name(&self, name: &str) -> (r: Option<usize>)
        ensures
            (match r {
                Some(i) => Some(i as int),
                None => None,
            }) == crate::lists::position(self.deep_view().outputs, is_called(name@)),
            r matches Some(i) ==> i < self.outputs@.len() && is_called(name@)(
                self.deep_view().outputs[i as int],
            ),
    {
        let ghost all = self.deep_view().outputs;
        let ghost p = is_called(name@);
        for i in 0..self.outputs.len()
            invariant
                all == self.deep_view().outputs,
                p == is_called(name@),
                forall|j: int| 0 <= j < i ==> !p(#[trigger] all[j]),
        {
            assert(all[i as int] == self.outputs@[i as int].deep_view());
            if is_name(&self.outputs[i].name, name) {
                proof {
                    crate::lists::lemma_position_is(all, p, i as int);
                }
                return Some(i);
            }
        }
        proof {
            crate::lists::lemma_position_none(all, p);
        }
        None
    }

    fn find_by_frame(&self, id: u64) -> (r: Option<usize>)
        ensures
            (match r {
                Some(i) => Some(i as int),
                None => None,
            }) == crate::lists::position(self.deep_view().outputs, awaits_frame(id)),
            r matches Some(i) ==> i < self.outputs@.len() && awaits_frame(id)(
                self.deep_view().outputs[i as int],
            ),
    {
        let ghost all = self.deep_view().outputs;
        let ghost p = awaits_frame(id);
        for i in 0..self.outputs.len()
            invariant
                all == self.deep_view().outputs,
                p == awaits_frame(id),
                forall|j: int| 0 <= j < i ==> !p(#[trigger] all[j]),
        {
            assert(all[i as int] == self.outputs@[i as int].deep_view());
            if self.waits_for(i, id) {
                proof {
                    crate::lists::lemma_position_is(all, p, i as int);
                }
                return Some(i);
            }
        }
        proof {
            crate::lists::lemma_position_none(all, p);
        }
        None
    }

    fn find_by_buffer(&self, tag: u64) -> (r: Option<usize>)
        ensures
            (match r {
                Some(i) => Some(i as int),
                None => None,
            }) == crate::lists::position(self.deep_view().outputs, owns_buffer(tag)),
            r matches Some(i) ==> i < self.outputs@.len() && owns_buffer(tag)(
                self.deep_view().outputs[i as int],
            ),
    {
        let ghost all = self.deep_view().outputs;
        let ghost p = owns_buffer(tag);
        for i in 0..self.outputs.len()
            invariant
                all == self.deep_view().outputs,
                p == owns_buffer(tag),
                forall|j: int| 0 <= j < i ==> !p(#[trigger] all[j]),
        {
            assert(all[i as int] == self.outputs@[i as int].deep_view());
            if self.has_buffer(i, tag) {
                proof {
                    crate::lists::lemma_position_is(all, p, i as int);
                }
                return Some(i);
            }
        }
        proof {
            crate::lists::lemma_position_none(all, p);
        }
        None
    }

    fn waits_for(&self, i: usize, id: u64) -> (r: bool)
        requires
            i < self.outputs@.len(),
        ensures
            r == awaits_frame(id)(self.outputs@[i as int].deep_view()),
    {
        match self.outputs[i].pending {
            Some(p) => p.id == id,
            None => false,
        }
    }

    fn has_buffer(&self, i: usize, tag: u64) -> (r: bool)
        requires
            i < self.outputs@.len(),
        ensures
            r == owns_buffer(tag)(self.outputs@[i as int].deep_view()),
    {
        match self.outputs[i].buffer {
            Some(b) => b.tag == tag,
            None => false,
        }
    }

    fn label(&self, i: usize) -> (r: String)
        requires
            i < self.outputs@.len(),
        ensures
            r@ == label_of(self.deep_view().outputs[i as int]),
    {
        match &self.outputs[i].name {
            Some(n) => n.clone(),
            None => "<unnamed>".to_owned(),
        }
    }

    fn set_pending(&mut self, i: usize, pending: Option<PendingFrame>)
        requires
            i < old(self).outputs@.len(),
        ensures
            final(self).deep_view() == old(self).deep_view().with_output(
                i as int,
                OutputView { pending, ..old(self).deep_view().outputs[i as int] },
            ),
            final(self).outputs@.len() == old(self).outputs@.len(),
    {
        let ghost before = self.outputs.deep_view();
        self.outputs[i].pending = pending;
        assert(self.outputs.deep_view() =~= before.update(
            i as int,
            OutputView { pending, ..before[i as int] },
        ));
    }

    fn set_next_due(&mut self, i: usize, next_due: u128)
        requires
            i < old(self).outputs@.len(),
        ensures
            final(self).deep_view() == old(self).deep_view().with_output(
                i as int,
                OutputView { next_due, ..old(self).deep_view().outputs[i as int] },
            ),
            final(self).outputs@.len() == old(self).outputs@.len(),
    {
        let ghost before = self.outputs.deep_view();
        self.outputs[i].next_due = next_due;
        assert(self.outputs.deep_view() =~= before.update(
            i as int,
            OutputView { next_due, ..before[i as int] },
        ));
    }

    fn set_buffer(&mut self, i: usize, buffer: Option<ShmBuffer>)
        requires
            i < old(self).outputs@.len(),
        ensures
            final(self).deep_view() == old(self).deep_view().with_output(
                i as int,
                OutputView { buffer, ..old(self).deep_view().outputs[i as int] },
            ),
            final(self).outputs@.len() == old(self).outputs@.len(),
    {
        let ghost before = self.outputs.deep_view();
        self.outputs[i].buffer = buffer;
        assert(self.outputs.deep_view() =~= before.update(
            i as int,
            OutputView { buffer, ..before[i as int] },
        ));
    }

    fn drop_pending(&mut self, idx: usize, out: &mut Vec<CaptureAction>)
        requires
            idx < old(self).outputs@.len(),
        ensures
            final(self).outputs@.len() == old(self).outputs@.len(),
            final(self).deep_view() == old(self).deep_view().drop_pending(idx as int).0,
            final(out).deep_view() == old(out).deep_view() + old(self).deep_view().drop_pending(idx as int).1,
    {
        if let Some(p) = self.outputs[idx].pending {
            self.set_pending(idx, None);
            emit(out, CaptureAction::DestroyFrame { frame: p.id });
        }
    }

    fn start_capture(&mut self, idx: usize, reason: CaptureReason, out: &mut Vec<CaptureAction>)
        requires
            idx < old(self).outputs@.len(),
            old(self).next_frame_id < u64::MAX,
        ensures
            final(self).outputs@.len() == old(self).outputs@.len(),
            final(self).deep_view() == old(self).deep_view().start_capture(idx as int, reason).0,
            final(out).deep_view() == old(out).deep_view() + old(self).deep_view().start_capture(idx as int, reason).1,
    {
        if !self.manager {
            return;
        }
        let global: u32 = self.outputs[idx].global;
        self.drop_pending(idx, out);
        let id: u64 = self.next_frame_id;
        self.next_frame_id = id + 1;
        self.set_pending(
            idx,
            Some(PendingFrame { id, reason, info: None, copying: false, y_invert: false }),
        );
        emit(out, CaptureAction::CaptureOutput { global, frame: id });
    }

    fn due_after(&self, now: u64) -> (r: u128)
        ensures
            r == self.deep_view().due_after(now),
    {
        now as u128 + self.min_interval as u128
    }

    fn fail(&mut self, idx: usize, error: String, now: u64, out: &mut Vec<CaptureAction>)
        requires
            idx < old(self).outputs@.len(),
        ensures
            final(self).deep_view() == old(self).deep_view().fail(idx as int, error@, now).0,
            final(out).deep_view() == old(out).deep_view() + old(self).deep_view().fail(idx as int, error@, now).1,
    {
        if let Some(p) = self.outputs[idx].pending {
            let output = self.label(idx);
            let due: u128 = self.due_after(now);
            let ghost before = self.deep_view();
            self.set_pending(idx, None);
            self.set_next_due(idx, due);
            proof {
                let o = before.outputs[idx as int];
                assert(self.deep_view().outputs =~= before.outputs.update(
                    idx as int,
                    OutputView { pending: None, next_due: due, ..o },
                ));
            }
            emit(out, CaptureAction::DestroyFrame { frame: p.id });
            emit(out, CaptureAction::Emit(Msg::CaptureFailed { output, reason: p.reason, error }));
        }
    }

    fn copy_into(&mut self, idx: usize, p: PendingFrame, b: ShmBuffer, out: &mut Vec<CaptureAction>)
        requires
            idx < old(self).outputs@.len(),
            old(self).deep_view().outputs[idx as int].pending == Some(p),
        ensures
            final(self).deep_view() == old(self).deep_view().copy_into(idx as int, b).0,
            final(out).deep_view() == old(out).deep_view() + old(self).deep_view().copy_into(idx as int, b).1,
    {
        let background = match p.reason {
            CaptureReason::Background => true,
            _ => false,
        };
        let with_damage = background && self.manager_version >= 2;
        let ghost before = self.deep_view();
        let mine = ShmBuffer { tag: b.tag, info: b.info, released: false };
        let copied = PendingFrame {
            id: p.id,
            reason: p.reason,
            info: p.info,
            copying: true,
            y_invert: p.y_invert,
        };
        self.set_buffer(idx, Some(mine));
        self.set_pending(idx, Some(copied));
        proof {
            let o = before.outputs[idx as int];
            assert(self.deep_view().outputs =~= before.outputs.update(
                idx as int,
                OutputView { buffer: Some(mine), pending: Some(copied), ..o },
            ));
        }
        emit(out, CaptureAction::CopyFrame { frame: p.id, tag: b.tag, with_damage });
    }

    fn ask_for_buffer(&mut self, idx: usize, p: PendingFrame, info: BufInfo, now: u64, out: &mut Vec<CaptureAction>)
        requires
            idx < old(self).outputs@.len(),
            old(self).deep_view().outputs[idx as int].pending == Some(p),
            p.info == Some(info),
        ensures
            final(self).deep_view() == old(self).deep_view().ask_for_buffer(idx as int, now).0,
            final(out).deep_view() == old(out).deep_view() + old(self).deep_view().ask_for_buffer(idx as int, now).1,
    {
        if info.stride == 0 || info.height == 0 {
            self.fail(idx, "zero-sized capture buffer".to_owned(), now, out);
        } else {
            emit(out, CaptureAction::Allocate { frame: p.id, info });
        }
    }

    fn begin_copy(&mut self, idx: usize, now: u64, out: &mut Vec<CaptureAction>)
        requires
            idx < old(self).outputs@.len(),
        ensures
            final(self).deep_view() == old(self).deep_view().begin_copy(idx as int, now).0,
            final(out).deep_view() == old(out).deep_view() + old(self).deep_view().begin_copy(idx as int, now).1,
    {
        if !self.shm {
            return;
        }
        let p: PendingFrame = match self.outputs[idx].pending {
            Some(p) => p,
            None => {
                return;
            },
        };
        let info: BufInfo = match p.info {
            Some(info) => info,
            None => {
                return;
            },
        };
        if p.copying {
            return;
        }
        match self.outputs[idx].buffer {
            Some(b) => {
                if b.info == info && b.released {
                    self.copy_into(idx, p, b, out);
                } else {
                    self.set_buffer(idx, None);
                    emit(out, CaptureAction::DropBuffer { tag: b.tag });
                    self.ask_for_buffer(idx, p, info, now, out);
                }
            },
            None => {
                self.ask_for_buffer(idx, p, info, now, out);
            },
        }
    }

    fn allocated(&mut self, frame: u64, out: &mut Vec<CaptureAction>)
        ensures
            final(self).deep_view() == old(self).deep_view().allocated(frame).0,
            final(out).deep_view() == old(out).deep_view() + old(self).deep_view().allocated(frame).1,
    {
        if let Some(i) = self.find_by_frame(frame) {
            if let Some(p) = self.outputs[i].pending {
                if let Some(info) = p.info {
                    if !p.copying && self.outputs[i].buffer.is_none() {
                        self.copy_into(
                            i,
                            p,
                            ShmBuffer { tag: frame, info, released: true },
                            out,
                        );
                        return;
                    }
                }
            }
        }
        emit(out, CaptureAction::DropBuffer { tag: frame });
    }

    fn on_buffer(&mut self, frame: u64, info: BufInfo, now: u64, out: &mut Vec<CaptureAction>)
        ensures
            final(self).deep_view() == old(self).deep_view().on_buffer(frame, info, now).0,
            final(out).deep_view() == old(out).deep_view() + old(self).deep_view().on_buffer(frame, info, now).1,
    {
        let i: usize = match self.find_by_frame(frame) {
            Some(i) => i,
            None => {
                return;
            },
        };
        if PixFmt::from_wl(info.format).is_none() {
            return;
        }
        if let Some(p) = self.outputs[i].pending {
            if p.info.is_none() {
                self.set_pending(
                    i,
                    Some(
                        PendingFrame {
                            id: p.id,
                            reason: p.reason,
                            info: Some(info),
                            copying: p.copying,
                            y_invert: p.y_invert,
                        },
                    ),
                );
            }
        }
        if self.manager_version < 3 {
            self.begin_copy(i, now, out);
        }
    }

    fn on_buffer_done(&mut self, frame: u64, now: u64, out: &mut Vec<CaptureAction>)
        ensures
            final(self).deep_view() == old(self).deep_view().on_buffer_done(frame, now).0,
            final(out).deep_view() == old(out).deep_view() + old(self).deep_view().on_buffer_done(frame, now).1,
    {
        let i: usize = match self.find_by_frame(frame) {
            Some(i) => i,
            None => {
                return;
            },
        };
        let has_info = match self.outputs[i].pending {
            Some(p) => p.info.is_some(),
            None => false,
        };
        if has_info {
            self.begin_copy(i, now, out);
        } else {
            self.fail(i, "compositor offered no supported shm format".to_owned(), now, out);
        }
    }

    fn on_flags(&mut self, frame: u64, flags: u32)
        ensures
            final(self).deep_view() == old(self).deep_view().on_flags(frame, flags).0,
    {
        if let Some(i) = self.find_by_frame(frame) {
            if let Some(p) = self.outputs[i].pending {
                assert(flags & 1 == flags % 2) by (bit_vector);
                self.set_pending(
                    i,
                    Some(
                        PendingFrame {
                            id: p.id,
                            reason: p.reason,
                            info: p.info,
                            copying: p.copying,
                            y_invert: flags & 1 != 0,
                        },
                    ),
                );
            }
        }
    }

    fn on_released(&mut self, tag: u64)
        ensures
            final(self).deep_view() == old(self).deep_view().on_released(tag).0,
    {
        if let Some(i) = self.find_by_buffer(tag) {
            if let Some(b) = self.outputs[i].buffer {
                self.set_buffer(i, Some(ShmBuffer { tag: b.tag, info: b.info, released: true }));
            }
        }
    }

    fn on_failed(&mut self, frame: u64, now: u64, out: &mut Vec<CaptureAction>)
        ensures
            final(self).deep_view() == old(self).deep_view().on_failed(frame, now).0,
            final(out).deep_view() == old(out).deep_view() + old(self).deep_view().on_failed(frame, now).1,
    {
        if let Some(i) = self.find_by_frame(frame) {
            self.fail(i, "compositor reported frame copy failure".to_owned(), now, out);
        }
    }

    fn on_allocation_failed(&mut self, frame: u64, error: String, now: u64, out: &mut Vec<CaptureAction>)
        ensures
            final(self).deep_view() == old(self).deep_view().on_allocation_failed(frame, error@, now).0,
            final(out).deep_view() == old(out).deep_view() + old(self).deep_view().on_allocation_failed(frame, error@, now).1,
    {
        if let Some(i) = self.find_by_frame(frame) {
            self.fail(i, error, now, out);
        }
    }

    /// Whether the thumbnail of this frame fits in memory at all.
    pub fn fits(&self, frame: u64) -> (r: bool)
        ensures
            r == self.deep_view().fits(frame),
    {
        if let Some(i) = self.find_by_frame(frame) {
            if let Some(p) = self.outputs[i].pending {
                if let Some(info) = p.info {
                    let (w, h): (u32, u32) = thumb_size(info.width, info.height, self.thumb_width);
                    assert(w * h <= 0xffff_ffff * 0xffff_ffff) by (nonlinear_arith)
                        requires
                            w <= 0xffff_ffff,
                            h <= 0xffff_ffff,
                    ;
                    assert(0 <= w * h) by (nonlinear_arith)
                        requires
                            w >= 0,
                            h >= 0,
                    ;
                    let area: u128 = w as u128 * h as u128;
                    let max: u128 = isize::MAX as u128;
                    return area * 4 <= max;
                }
            }
        }
        true
    }

    /// The thumbnail of a frame of this layout.
    fn take_thumbnail(
        &self,
        pixels: &[u8],
        info: BufInfo,
        fmt: PixFmt,
        y_invert: bool,
        now: u64,
    ) -> (r: Thumbnail)
        requires
            crate::pixels::layout_of(info.format) == Some(fmt),
            ({
                let (w, h) = self.deep_view().thumb_dimensions(info);
                w * h * 4 <= isize::MAX
            }),
        ensures
            r.deep_view() == self.deep_view().thumbnail_of(pixels@, info, y_invert, now),
    {
        let (width, height): (u32, u32) = thumb_size(info.width, info.height, self.thumb_width);
        let rgba = convert_downscale(
            pixels,
            info.width,
            info.height,
            info.stride,
            fmt,
            y_invert,
            width,
            height,
        );
        assert(rgba@ =~= self.deep_view().thumbnail_of(pixels@, info, y_invert, now).rgba);
        Thumbnail { width, height, rgba, taken_at: now }
    }

    /// What is reported of a frame that has been copied to `pixels`.
    fn report(&self, i: usize, p: PendingFrame, pixels: &[u8], now: u64) -> (r: Msg)
        requires
            i < self.outputs@.len(),
            p.info matches Some(info) ==> crate::pixels::layout_of(info.format) is Some && ({
                let (w, h) = self.deep_view().thumb_dimensions(info);
                w * h * 4 <= isize::MAX
            }),
        ensures
            r.deep_view() == self.deep_view().report(
                self.deep_view().outputs[i as int],
                p,
                pixels@,
                now,
            ),
    {
        let output = self.label(i);
        let reason = p.reason;
        let info: BufInfo = match p.info {
            Some(info) => info,
            None => {
                let error = "no supported shm buffer format".to_owned();
                return Msg::CaptureFailed { output, reason, error };
            },
        };
        let there = match self.outputs[i].buffer {
            Some(b) => b.info == info,
            None => false,
        };
        if there {
            if let Some(fmt) = PixFmt::from_wl(info.format) {
                let thumb = self.take_thumbnail(pixels, info, fmt, p.y_invert, now);
                return Msg::Frame { output, thumb, reason };
            }
        }
        Msg::CaptureFailed { output, reason, error: "capture buffer vanished".to_owned() }
    }

    /// A frame has been copied; `pixels` is what its output's buffer holds,
    /// nothing if there is none.
    pub fn on_ready(
        &mut self,
        frame: u64,
        pixels: &[u8],
        now: u64,
        out: &mut Vec<CaptureAction>,
    )
        requires
            old(self).deep_view().wf(),
            old(self).deep_view().fits(frame),
        ensures
            final(self).deep_view().wf(),
            final(self).deep_view() == old(self).deep_view().on_ready(frame, pixels@, now).0,
            final(out).deep_view() == old(out).deep_view() + old(self).deep_view().on_ready(
                frame,
                pixels@,
                now,
            ).1,
    {
        let i: usize = match self.find_by_frame(frame) {
            Some(i) => i,
            None => {
                return;
            },
        };
        let p: PendingFrame = match self.outputs[i].pending {
            Some(p) => p,
            None => {
                return;
            },
        };
        let ghost before = self.deep_view();
        let ghost o = before.outputs[i as int];
        let msg = self.report(i, p, pixels, now);
        let due: u128 = self.due_after(now);
        self.set_pending(i, None);
        self.set_next_due(i, due);
        assert(self.deep_view().outputs =~= before.outputs.update(
            i as int,
            OutputView { pending: None, next_due: due, ..o },
        ));
        emit(out, CaptureAction::DestroyFrame { frame: p.id });
        emit(out, CaptureAction::Emit(msg));
    }

    /// Start a background capture of every output that is due, has a name and
    /// no capture under way.
    pub fn schedule(&mut self, now: u64, out: &mut Vec<CaptureAction>)
        requires
            old(self).deep_view().has_numbers(),
        ensures
            old(self).deep_view().wf() ==> final(self).deep_view().wf(),
            final(self).deep_view() == old(self).deep_view().schedule(now).0,
            final(out).deep_view() == old(out).deep_view() + old(self).deep_view().schedule(now).1,
    {
        if self.paused || !self.manager {
            return;
        }
        let n: usize = self.outputs.len();
        let ghost start = self.deep_view();
        let ghost said = out.deep_view();
        for i in 0..n
            invariant
                n == start.outputs.len(),
                self.outputs@.len() == n,
                start.has_numbers(),
                start.manager,
                self.deep_view() == start.schedule_first(i as nat, now).0,
                out.deep_view() == said + start.schedule_first(i as nat, now).1,
                self.next_frame_id <= start.next_frame_id + i,
                forall|k: int|
                    i <= k < n ==> self.deep_view().outputs[k] == #[trigger] start.outputs[k],
        {
            assert(self.deep_view().outputs[i as int] == start.outputs[i as int]);
            let due = self.outputs[i].name.is_some() && self.outputs[i].pending.is_none()
                && self.outputs[i].next_due <= now as u128;
            if due {
                self.start_capture(i, CaptureReason::Background, out);
            }
        }
        proof {
            if start.wf() {
                lemma_scheduling_keeps_wf(start, n as nat, now);
            }
        }
    }

    /// Milliseconds until the next background capture is due; -1 for never.
    pub fn poll_timeout(&self, now: u64) -> (r: i32)
        ensures
            r == self.deep_view().poll_timeout(now),
    {
        if self.paused || !self.manager {
            return -1;
        }
        let mut best: Option<u128> = None;
        let ghost all = self.deep_view().outputs;
        assert(all.take(0) =~= seq![]);
        for i in 0..self.outputs.len()
            invariant
                all == self.deep_view().outputs,
                CaptureView::least_wait(all.take(i as int), now) == (match best {
                    Some(b) => Some(b as int),
                    None => None,
                }),
        {
            assert(all.take(i + 1).drop_last() =~= all.take(i as int));
            assert(all.take(i + 1).last() == self.outputs@[i as int].deep_view());
            if self.outputs[i].name.is_some() && self.outputs[i].pending.is_none() {
                let due: u128 = self.outputs[i].next_due;
                let wait: u128 = if due <= now as u128 {
                    0
                } else {
                    due - now as u128
                };
                best = match best {
                    Some(b) => {
                        if b <= wait {
                            Some(b)
                        } else {
                            Some(wait)
                        }
                    },
                    None => Some(wait),
                };
            }
        }
        assert(all.take(all.len() as int) =~= all);
        match best {
            None => -1,
            Some(d) => {
                let ms: u128 = d / 1_000_000;
                if ms > 0x7fff_ffff {
                    0x7fff_ffff
                } else {
                    ms as i32
                }
            },
        }
    }

    fn names(&self) -> (r: Vec<String>)
        ensures
            r.deep_view() == sorted_names(self.deep_view().outputs),
    {
        let mut names: Vec<String> = Vec::new();
        let ghost all = self.deep_view().outputs;
        assert(all.take(0) =~= seq![]);
        assert(names.deep_view() =~= seq![]);
        for i in 0..self.outputs.len()
            invariant
                all == self.deep_view().outputs,
                names.deep_view() == sorted_names(all.take(i as int)),
        {
            assert(all.take(i + 1).drop_last() =~= all.take(i as int));
            assert(all.take(i + 1).last() == self.outputs@[i as int].deep_view());
            if let Some(n) = &self.outputs[i].name {
                insert_sorted(&mut names, n.clone());
            }
        }
        assert(all.take(all.len() as int) =~= all);
        names
    }

    /// Report the set of outputs if it has changed.
    pub fn publish_outputs(&mut self, out: &mut Vec<CaptureAction>)
        ensures
            old(self).deep_view().wf() ==> final(self).deep_view().wf(),
            final(self).deep_view() == old(self).deep_view().publish_outputs().0,
            final(out).deep_view() == old(out).deep_view()
                + old(self).deep_view().publish_outputs().1,
    {
        if !self.started || !self.outputs_dirty {
            return;
        }
        self.outputs_dirty = false;
        let names = self.names();
        if equal_texts(&names, &self.last_sent_outputs) {
            return;
        }
        self.last_sent_outputs = copy_texts(&names);
        emit(out, CaptureAction::Emit(Msg::CaptureOutputs(names)));
    }

    fn drop_background(&mut self, out: &mut Vec<CaptureAction>)
        ensures
            ({
                let c = old(self).deep_view();
                let r = c.drop_background(c.outputs.len());
                &&& final(self).deep_view() == r.0
                &&& final(out).deep_view() == old(out).deep_view() + r.1
            }),
    {
        let n: usize = self.outputs.len();
        let ghost start = self.deep_view();
        let ghost said = out.deep_view();
        for i in 0..n
            invariant
                n == start.outputs.len(),
                self.outputs@.len() == n,
                self.deep_view() == start.drop_background(i as nat).0,
                out.deep_view() == said + start.drop_background(i as nat).1,
                forall|k: int|
                    i <= k < n ==> self.deep_view().outputs[k] == #[trigger] start.outputs[k],
        {
            assert(self.deep_view().outputs[i as int] == start.outputs[i as int]);
            let background = match self.outputs[i].pending {
                Some(p) => match p.reason {
                    CaptureReason::Background => true,
                    _ => false,
                },
                None => false,
            };
            if background {
                self.drop_pending(i, out);
            }
        }
    }

    fn make_all_due(&mut self, now: u64)
        ensures
            final(self).deep_view() == (CaptureView {
                outputs: old(self).deep_view().outputs.map_values(
                    |o: OutputView| OutputView { next_due: now as u128, ..o },
                ),
                ..old(self).deep_view()
            }),
    {
        let n: usize = self.outputs.len();
        let ghost start = self.deep_view();
        for i in 0..n
            invariant
                n == start.outputs.len(),
                self.outputs@.len() == n,
                self.deep_view() == (CaptureView {
                    outputs: self.deep_view().outputs,
                    ..start
                }),
                forall|k: int|
                    0 <= k < i ==> #[trigger] self.deep_view().outputs[k] == (OutputView {
                        next_due: now as u128,
                        ..start.outputs[k]
                    }),
                forall|k: int|
                    i <= k < n ==> #[trigger] self.deep_view().outputs[k] == start.outputs[k],
        {
            self.set_next_due(i, now as u128);
        }
        assert(self.deep_view().outputs =~= start.outputs.map_values(
            |o: OutputView| OutputView { next_due: now as u128, ..o },
        ));
    }

    fn set_paused(&mut self, paused: bool, now: u64, out: &mut Vec<CaptureAction>)
        ensures
            final(self).deep_view() == old(self).deep_view().set_paused(paused, now).0,
            final(out).deep_view() == old(out).deep_view() + old(self).deep_view().set_paused(
                paused,
                now,
            ).1,
    {
        if self.paused == paused {
            return;
        }
        self.paused = paused;
        if paused {
            self.drop_background(out);
        } else {
            self.make_all_due(now);
        }
    }

    fn on_request(&mut self, output: String, reason: CaptureReason, out: &mut Vec<CaptureAction>)
        requires
            old(self).deep_view().has_numbers(),
        ensures
            final(self).deep_view() == old(self).deep_view().on_request(output@, reason).0,
            final(out).deep_view() == old(out).deep_view() + old(self).deep_view().on_request(
                output@,
                reason,
            ).1,
    {
        match self.find_by_name(&output) {
            Some(i) => self.start_capture(i, reason, out),
            None => emit(
                out,
                CaptureAction::Emit(
                    Msg::CaptureFailed { output, reason, error: "unknown output".to_owned() },
                ),
            ),
        }
    }

    fn on_global(
        &mut self,
        name: u32,
        interface: &str,
        version: u32,
        now: u64,
        out: &mut Vec<CaptureAction>,
    )
        ensures
            final(self).deep_view() == old(self).deep_view().on_global(
                name,
                interface@,
                version,
                now,
            ).0,
            final(out).deep_view() == old(out).deep_view() + old(self).deep_view().on_global(
                name,
                interface@,
                version,
                now,
            ).1,
    {
        if same_text(interface, "wl_shm") {
            if !self.shm {
                self.shm = true;
                emit(out, CaptureAction::BindShm { global: name });
            }
        } else if same_text(interface, "zwlr_screencopy_manager_v1") {
            if !self.manager {
                let v: u32 = if version < WANT_MANAGER_VERSION {
                    version
                } else {
                    WANT_MANAGER_VERSION
                };
                self.manager_version = v;
                self.manager = true;
                emit(out, CaptureAction::BindManager { global: name, version: v });
            }
        } else if same_text(interface, "wl_output") && version >= WANT_OUTPUT_VERSION {
            let ghost before = self.outputs.deep_view();
            let o = CaptureOutput {
                global: name,
                name: None,
                pending: None,
                next_due: now as u128,
                buffer: None,
            };
            let ghost view = o.deep_view();
            self.outputs.push(o);
            assert(self.outputs.deep_view() =~= before.push(view));
            emit(out, CaptureAction::BindOutput { global: name, version: WANT_OUTPUT_VERSION });
        }
    }

    fn on_global_remove(&mut self, name: u32, out: &mut Vec<CaptureAction>)
        ensures
            final(self).deep_view() == old(self).deep_view().on_global_remove(name).0,
            final(out).deep_view() == old(out).deep_view()
                + old(self).deep_view().on_global_remove(name).1,
    {
        if let Some(i) = self.find_by_global(name) {
            let buffer = self.outputs[i].buffer;
            let global: u32 = self.outputs[i].global;
            self.drop_pending(i, out);
            let ghost before = self.outputs.deep_view();
            let _ = self.outputs.remove(i);
            assert(self.outputs.deep_view() =~= before.remove(i as int));
            emit(out, CaptureAction::ReleaseOutput { global });
            if let Some(b) = buffer {
                emit(out, CaptureAction::DropBuffer { tag: b.tag });
            }
            self.outputs_dirty = true;
        }
    }

    fn on_output_name(&mut self, global: u32, name: String)
        ensures
            final(self).deep_view() == old(self).deep_view().on_output_name(global, name@).0,
    {
        if let Some(i) = self.find_by_global(global) {
            if !is_name(&self.outputs[i].name, &name) {
                let ghost before = self.outputs.deep_view();
                let ghost text = name@;
                self.outputs[i].name = Some(name);
                assert(self.outputs.deep_view() =~= before.update(
                    i as int,
                    OutputView { name: Some(text), ..before[i as int] },
                ));
                self.outputs_dirty = true;
            }
        }
    }

    /// Deal with what came in.
    pub fn handle(&mut self, input: CaptureInput, now: u64, out: &mut Vec<CaptureAction>)
        requires
            input is Request ==> old(self).deep_view().has_numbers(),
        ensures
            old(self).deep_view().wf() ==> final(self).deep_view().wf(),
            final(self).deep_view() == old(self).deep_view().handle(input.deep_view(), now).0,
            final(out).deep_view() == old(out).deep_view() + old(self).deep_view().handle(
                input.deep_view(),
                now,
            ).1,
    {
        proof {
            if self.deep_view().wf() {
                law_captures_stay_well_formed(self.deep_view(), input.deep_view(), now);
            }
        }
        match input {
            CaptureInput::Global { name, interface, version } => self.on_global(
                name,
                &interface,
                version,
                now,
                out,
            ),
            CaptureInput::GlobalRemove { name } => self.on_global_remove(name, out),
            CaptureInput::OutputName { global, name } => self.on_output_name(global, name),
            CaptureInput::OutputDone { global } => {
                if self.find_by_global(global).is_some() {
                    self.publish_outputs(out);
                }
            },
            CaptureInput::Buffer { frame, info } => self.on_buffer(frame, info, now, out),
            CaptureInput::BufferDone { frame } => self.on_buffer_done(frame, now, out),
            CaptureInput::Flags { frame, flags } => self.on_flags(frame, flags),
            CaptureInput::Failed { frame } => self.on_failed(frame, now, out),
            CaptureInput::Released { tag } => self.on_released(tag),
            CaptureInput::Allocated { frame } => self.allocated(frame, out),
            CaptureInput::AllocationFailed { frame, error } => self.on_allocation_failed(
                frame,
                error,
                now,
                out,
            ),
            CaptureInput::Request { output, reason } => self.on_request(output, reason, out),
            CaptureInput::SetPaused(p) => self.set_paused(p, now, out),
            CaptureInput::Shutdown => {
                self.running = false;
            },
            CaptureInput::ChannelClosed => {
                self.running = false;
            },
        }
    }

    /// Begin, once the compositor's globals are known: what is missing, if
    /// anything is. From then on the set of outputs is reported, even if it is
    /// what it was.
    pub fn start(&mut self) -> (r: Result<(), String>)
        ensures
            match old(self).deep_view().missing() {
                Some(why) => r matches Err(text) && text@ == why,
                None => r is Ok,
            },
            final(self).deep_view() == (if r is Ok {
                CaptureView { started: true, outputs_dirty: true, ..old(self).deep_view() }
            } else {
                old(self).deep_view()
            }),
    {
        if !self.manager {
            return Err("compositor does not support zwlr_screencopy_manager_v1".to_owned());
        }
        if !self.shm {
            return Err("compositor does not advertise wl_shm".to_owned());
        }
        self.started = true;
        self.outputs_dirty = true;
        Ok(())
    }

    /// Tell the compositor to stop working for us.
    pub fn tear_down(&mut self, out: &mut Vec<CaptureAction>)
        ensures
            ({
                let c = old(self).deep_view();
                final(self).deep_view() == c.drop_all(c.outputs.len()).0
            }),
            final(out).deep_view() == old(out).deep_view() + old(self).deep_view().tear_down(),
    {
        let n: usize = self.outputs.len();
        let ghost start = self.deep_view();
        let ghost said = out.deep_view();
        for i in 0..n
            invariant
                n == start.outputs.len(),
                self.outputs@.len() == n,
                self.deep_view() == start.drop_all(i as nat).0,
                out.deep_view() == said + start.drop_all(i as nat).1,
                self.manager == start.manager,
                forall|k: int|
                    0 <= k < n ==> (#[trigger] self.deep_view().outputs[k]).buffer
                        == start.outputs[k].buffer && self.deep_view().outputs[k].global
                        == start.outputs[k].global,
        {
            self.drop_pending(i, out);
        }
        let ghost dropped = out.deep_view();
        let ghost all = start.outputs;
        assert(all.take(0) =~= seq![]);
        for i in 0..n
            invariant
                n == start.outputs.len(),
                all == start.outputs,
                self.outputs@.len() == n,
                self.manager == start.manager,
                out.deep_view() == dropped + CaptureView::parting(all.take(i as int)),
                forall|k: int|
                    0 <= k < n ==> (#[trigger] self.deep_view().outputs[k]).buffer
                        == start.outputs[k].buffer && self.deep_view().outputs[k].global
                        == start.outputs[k].global,
        {
            assert(all.take(i + 1).drop_last() =~= all.take(i as int));
            assert(all.take(i + 1).last() == start.outputs[i as int]);
            assert(self.deep_view().outputs[i as int] == self.outputs@[i as int].deep_view());
            if let Some(b) = self.outputs[i].buffer {
                emit(out, CaptureAction::DropBuffer { tag: b.tag });
            }
            emit(out, CaptureAction::ReleaseOutput { global: self.outputs[i].global });
        }
        assert(all.take(all.len() as int) =~= all);
        if self.manager {
            emit(out, CaptureAction::DestroyManager);
        }
    }
}

// -------------------------------------------------------------------- laws --

proof fn lemma_start_keeps_wf(c: CaptureView, i: int, reason: CaptureReason)
    requires
        c.wf(),
        0 <= i < c.outputs.len(),
        c.next_frame_id < u64::MAX,
    ensures
        c.start_capture(i, reason).0.wf(),
        c.start_capture(i, reason).0.outputs.len() == c.outputs.len(),
        c.start_capture(i, reason).0.next_frame_id <= c.next_frame_id + 1,
{
}

pub(crate) proof fn lemma_scheduling_keeps_wf(c: CaptureView, n: nat, now: u64)
    requires
        c.wf(),
        n <= c.outputs.len(),
        c.next_frame_id + n <= u64::MAX,
    ensures
        c.schedule_first(n, now).0.wf(),
        c.schedule_first(n, now).0.outputs.len() == c.outputs.len(),
        c.schedule_first(n, now).0.next_frame_id <= c.next_frame_id + n,
    decreases n,
{
    if n > 0 {
        lemma_scheduling_keeps_wf(c, (n - 1) as nat, now);
        lemma_start_keeps_wf(
            c.schedule_first((n - 1) as nat, now).0,
            n - 1,
            CaptureReason::Background,
        );
    }
}

pub(crate) proof fn lemma_dropping_keeps_wf(c: CaptureView, n: nat)
    requires
        c.wf(),
        n <= c.outputs.len(),
    ensures
        c.drop_background(n).0.wf(),
        c.drop_background(n).0.outputs.len() == c.outputs.len(),
    decreases n,
{
    if n > 0 {
        lemma_dropping_keeps_wf(c, (n - 1) as nat);
    }
}

/// A change to one output that keeps its capture, or ends it, or learns a
/// convertible layout for it, keeps the state well-formed.
pub(crate) proof fn lemma_with_output_keeps_wf(c: CaptureView, i: int, o: OutputView)
    requires
        c.wf(),
        0 <= i < c.outputs.len(),
        o.pending matches Some(p) ==> c.outputs[i].pending is Some && p.id
            == c.outputs[i].pending->0.id && (p.info matches Some(info)
            ==> crate::pixels::layout_of(info.format) is Some),
    ensures
        c.with_output(i, o).wf(),
{
}

proof fn lemma_copying_keeps_wf(c: CaptureView, i: int, now: u64)
    requires
        c.wf(),
        0 <= i < c.outputs.len(),
    ensures
        c.begin_copy(i, now).0.wf(),
{
    let o = c.outputs[i];
    if let Some(p) = o.pending {
        if let Some(b) = o.buffer {
            let copied = OutputView {
                buffer: Some(ShmBuffer { released: false, ..b }),
                pending: Some(PendingFrame { copying: true, ..p }),
                ..o
            };
            lemma_with_output_keeps_wf(c, i, copied);
        }
        let bare = OutputView { buffer: None, ..o };
        lemma_with_output_keeps_wf(c, i, bare);
        let failed = OutputView { pending: None, next_due: c.due_after(now), ..o };
        lemma_with_output_keeps_wf(c, i, failed);
        let c2 = c.with_output(i, bare);
        lemma_with_output_keeps_wf(
            c2,
            i,
            OutputView { pending: None, next_due: c.due_after(now), ..bare },
        );
    }
}

proof fn lemma_global_keeps_wf(
    c: CaptureView,
    name: u32,
    interface: Seq<char>,
    version: u32,
    now: u64,
)
    requires
        c.wf(),
    ensures
        c.on_global(name, interface, version, now).0.wf(),
{
}

proof fn lemma_removal_keeps_wf(c: CaptureView, name: u32)
    requires
        c.wf(),
    ensures
        c.on_global_remove(name).0.wf(),
{
    crate::lists::lemma_position(c.outputs, has_global(name));
    if let Some(i) = crate::lists::position(c.outputs, has_global(name)) {
        let c2 = c.drop_pending(i).0;
        lemma_with_output_keeps_wf(c, i, OutputView { pending: None, ..c.outputs[i] });
        let rest = c2.outputs.remove(i);
        assert forall|k: int| 0 <= k < rest.len() implies #[trigger] rest[k] == c2.outputs[if k
            < i {
            k
        } else {
            k + 1
        }] by {}
    }
}

proof fn lemma_name_keeps_wf(c: CaptureView, global: u32, name: Seq<char>)
    requires
        c.wf(),
    ensures
        c.on_output_name(global, name).0.wf(),
{
    crate::lists::lemma_position(c.outputs, has_global(global));
    if let Some(i) = crate::lists::position(c.outputs, has_global(global)) {
        lemma_with_output_keeps_wf(c, i, OutputView { name: Some(name), ..c.outputs[i] });
    }
}

proof fn lemma_buffer_keeps_wf(c: CaptureView, frame: u64, info: BufInfo, now: u64)
    requires
        c.wf(),
    ensures
        c.on_buffer(frame, info, now).0.wf(),
{
    crate::lists::lemma_position(c.outputs, awaits_frame(frame));
    if let Some(i) = c.by_frame(frame) {
        let o = c.outputs[i];
        let p = PendingFrame { info: Some(info), ..o.pending->0 };
        if crate::pixels::layout_of(info.format) is Some {
            lemma_with_output_keeps_wf(c, i, OutputView { pending: Some(p), ..o });
            lemma_copying_keeps_wf(
                c.with_output(i, OutputView { pending: Some(p), ..o }),
                i,
                now,
            );
            lemma_copying_keeps_wf(c, i, now);
        }
    }
}

proof fn lemma_failure_keeps_wf(c: CaptureView, frame: u64, error: Seq<char>, now: u64)
    requires
        c.wf(),
    ensures
        c.by_frame(frame) matches Some(i) ==> c.fail(i, error, now).0.wf(),
{
    crate::lists::lemma_position(c.outputs, awaits_frame(frame));
    if let Some(i) = c.by_frame(frame) {
        lemma_with_output_keeps_wf(
            c,
            i,
            OutputView { pending: None, next_due: c.due_after(now), ..c.outputs[i] },
        );
    }
}

proof fn lemma_buffer_done_keeps_wf(c: CaptureView, frame: u64, now: u64)
    requires
        c.wf(),
    ensures
        c.on_buffer_done(frame, now).0.wf(),
{
    crate::lists::lemma_position(c.outputs, awaits_frame(frame));
    lemma_failure_keeps_wf(c, frame, "compositor offered no supported shm format"@, now);
    if let Some(i) = c.by_frame(frame) {
        lemma_copying_keeps_wf(c, i, now);
    }
}

proof fn lemma_flags_keep_wf(c: CaptureView, frame: u64, flags: u32)
    requires
        c.wf(),
    ensures
        c.on_flags(frame, flags).0.wf(),
{
    crate::lists::lemma_position(c.outputs, awaits_frame(frame));
    if let Some(i) = c.by_frame(frame) {
        let o = c.outputs[i];
        let p = PendingFrame { y_invert: flags % 2 == 1, ..o.pending->0 };
        lemma_with_output_keeps_wf(c, i, OutputView { pending: Some(p), ..o });
    }
}

proof fn lemma_release_keeps_wf(c: CaptureView, tag: u64)
    requires
        c.wf(),
    ensures
        c.on_released(tag).0.wf(),
{
    crate::lists::lemma_position(c.outputs, owns_buffer(tag));
    if let Some(i) = crate::lists::position(c.outputs, owns_buffer(tag)) {
        let o = c.outputs[i];
        let b = ShmBuffer { released: true, ..o.buffer->0 };
        lemma_with_output_keeps_wf(c, i, OutputView { buffer: Some(b), ..o });
    }
}

proof fn lemma_allocation_keeps_wf(c: CaptureView, frame: u64)
    requires
        c.wf(),
    ensures
        c.allocated(frame).0.wf(),
{
    crate::lists::lemma_position(c.outputs, awaits_frame(frame));
    if let Some(i) = c.by_frame(frame) {
        let o = c.outputs[i];
        let p = o.pending->0;
        if p.info is Some {
            let b = ShmBuffer { tag: frame, info: p.info->0, released: false };
            let copied = PendingFrame { copying: true, ..p };
            lemma_with_output_keeps_wf(
                c,
                i,
                OutputView { buffer: Some(b), pending: Some(copied), ..o },
            );
        }
    }
}

proof fn lemma_request_keeps_wf(c: CaptureView, output: Seq<char>, reason: CaptureReason)
    requires
        c.wf(),
        c.has_numbers(),
    ensures
        c.on_request(output, reason).0.wf(),
{
    crate::lists::lemma_position(c.outputs, is_called(output));
    if let Some(i) = crate::lists::position(c.outputs, is_called(output)) {
        lemma_start_keeps_wf(c, i, reason);
    }
}

proof fn lemma_pausing_keeps_wf(c: CaptureView, paused: bool, now: u64)
    requires
        c.wf(),
    ensures
        c.set_paused(paused, now).0.wf(),
{
    lemma_dropping_keeps_wf(CaptureView { paused, ..c }, c.outputs.len());
}

/// No input makes two captures share a number, nor a layout be remembered that
/// cannot be converted.
pub proof fn law_captures_stay_well_formed(c: CaptureView, input: CaptureInputView, now: u64)
    requires
        c.wf(),
        input is Request ==> c.has_numbers(),
    ensures
        c.handle(input, now).0.wf(),
{
    match input {
        CaptureInputView::Global { name, interface, version } => lemma_global_keeps_wf(
            c,
            name,
            interface,
            version,
            now,
        ),
        CaptureInputView::GlobalRemove { name } => lemma_removal_keeps_wf(c, name),
        CaptureInputView::OutputName { global, name } => lemma_name_keeps_wf(c, global, name),
        CaptureInputView::OutputDone { global } => {},
        CaptureInputView::Buffer { frame, info } => lemma_buffer_keeps_wf(c, frame, info, now),
        CaptureInputView::BufferDone { frame } => lemma_buffer_done_keeps_wf(c, frame, now),
        CaptureInputView::Flags { frame, flags } => lemma_flags_keep_wf(c, frame, flags),
        CaptureInputView::Failed { frame } => lemma_failure_keeps_wf(
            c,
            frame,
            "compositor reported frame copy failure"@,
            now,
        ),
        CaptureInputView::Released { tag } => lemma_release_keeps_wf(c, tag),
        CaptureInputView::Allocated { frame } => lemma_allocation_keeps_wf(c, frame),
        CaptureInputView::AllocationFailed { frame, error } => lemma_failure_keeps_wf(
            c,
            frame,
            error,
            now,
        ),
        CaptureInputView::Request { output, reason } => lemma_request_keeps_wf(c, output, reason),
        CaptureInputView::SetPaused(paused) => lemma_pausing_keeps_wf(c, paused, now),
        CaptureInputView::Shutdown => {},
        CaptureInputView::ChannelClosed => {},
    }
}

} // verus!
