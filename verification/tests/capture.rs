use svitek::capture::{BufInfo, Capture, CaptureAction, CaptureInput};
use svitek::model::{CaptureReason, Msg};
use svitek::pixels::ShmFormat;
use svitek::pump::{start_fault, Pump, PumpAction, PumpEvent, StartFault};

const MS: u64 = 1_000_000;

/// A capturer with what it has had done.
struct Bench {
    capture: Capture,
    now: u64,
}

fn info() -> BufInfo {
    BufInfo { format: ShmFormat::Xrgb8888, width: 4, height: 2, stride: 16 }
}

fn failed(output: &str, reason: CaptureReason, error: &str) -> CaptureAction {
    CaptureAction::Emit(Msg::CaptureFailed {
        output: output.to_string(),
        reason,
        error: error.to_string(),
    })
}

impl Bench {
    fn bare() -> Bench {
        Bench { capture: Capture::new(2, 400 * MS), now: 10 * MS }
    }

    fn input(&mut self, input: CaptureInput) -> Vec<CaptureAction> {
        let mut out = Vec::new();
        self.capture.handle(input, self.now, &mut out);
        out
    }

    fn global(&mut self, name: u32, interface: &str, version: u32) -> Vec<CaptureAction> {
        self.input(CaptureInput::Global { name, interface: interface.to_string(), version })
    }

    fn output(&mut self, global: u32, name: &str) {
        assert_eq!(
            self.global(global, "wl_output", 4),
            vec![CaptureAction::BindOutput { global, version: 4 }]
        );
        self.input(CaptureInput::OutputName { global, name: name.to_string() });
    }

    /// Two outputs, everything there, and started.
    fn ready(version: u32) -> Bench {
        let mut b = Bench::bare();
        b.global(1, "wl_shm", 1);
        b.global(2, "zwlr_screencopy_manager_v1", version);
        b.output(10, "HEADLESS-2");
        b.output(11, "HEADLESS-1");
        b.capture.start().expect("all there");
        assert_eq!(
            b.publish(),
            vec![CaptureAction::Emit(Msg::CaptureOutputs(vec![
                "HEADLESS-1".to_string(),
                "HEADLESS-2".to_string()
            ]))]
        );
        b
    }

    fn publish(&mut self) -> Vec<CaptureAction> {
        let mut out = Vec::new();
        self.capture.publish_outputs(&mut out);
        out
    }

    fn schedule(&mut self) -> Vec<CaptureAction> {
        let mut out = Vec::new();
        self.capture.schedule(self.now, &mut out);
        out
    }

    fn request(&mut self, output: &str, reason: CaptureReason) -> Vec<CaptureAction> {
        self.input(CaptureInput::Request { output: output.to_string(), reason })
    }

    fn ready_frame(&mut self, frame: u64, pixels: &[u8]) -> Vec<CaptureAction> {
        assert!(self.capture.fits(frame));
        let mut out = Vec::new();
        self.capture.on_ready(frame, pixels, self.now, &mut out);
        out
    }

    /// Bring a frame to where it is being copied.
    fn copy(&mut self, frame: u64) -> Vec<CaptureAction> {
        assert!(self.input(CaptureInput::Buffer { frame, info: info() }).is_empty());
        let mut out = self.input(CaptureInput::BufferDone { frame });
        if out.last() == Some(&CaptureAction::Allocate { frame, info: info() }) {
            out.extend(self.input(CaptureInput::Allocated { frame }));
        }
        out
    }
}

#[test]
fn globals_are_bound_once_and_old_outputs_not_at_all() {
    let mut b = Bench::bare();
    assert_eq!(b.global(1, "wl_shm", 2), vec![CaptureAction::BindShm { global: 1 }]);
    assert!(b.global(5, "wl_shm", 2).is_empty());
    assert_eq!(
        b.global(2, "zwlr_screencopy_manager_v1", 9),
        vec![CaptureAction::BindManager { global: 2, version: 3 }]
    );
    assert!(b.global(6, "zwlr_screencopy_manager_v1", 3).is_empty());
    assert!(b.global(7, "wl_output", 3).is_empty());
    assert!(b.global(8, "wl_seat", 7).is_empty());
    assert!(b.capture.outputs.is_empty());
}

#[test]
fn what_is_missing_is_named() {
    let mut b = Bench::bare();
    assert_eq!(
        b.capture.start().unwrap_err(),
        "compositor does not support zwlr_screencopy_manager_v1"
    );
    b.global(2, "zwlr_screencopy_manager_v1", 3);
    assert_eq!(b.capture.start().unwrap_err(), "compositor does not advertise wl_shm");
    b.global(1, "wl_shm", 1);
    assert_eq!(b.capture.start(), Ok(()));
    assert!(b.capture.is_running());
}

#[test]
fn the_outputs_are_reported_sorted_and_only_when_they_change() {
    let mut b = Bench::ready(3);
    assert!(b.publish().is_empty());
    // The same name again is no change.
    b.input(CaptureInput::OutputName { global: 10, name: "HEADLESS-2".to_string() });
    assert!(b.input(CaptureInput::OutputDone { global: 10 }).is_empty());
    // One without a name yet is not reported.
    b.global(12, "wl_output", 4);
    b.input(CaptureInput::OutputName { global: 12, name: "HEADLESS-0".to_string() });
    assert_eq!(
        b.input(CaptureInput::OutputDone { global: 12 }),
        vec![CaptureAction::Emit(Msg::CaptureOutputs(vec![
            "HEADLESS-0".to_string(),
            "HEADLESS-1".to_string(),
            "HEADLESS-2".to_string()
        ]))]
    );
    assert!(b.input(CaptureInput::OutputDone { global: 99 }).is_empty());
}

#[test]
fn every_due_output_is_captured_once_and_then_throttled() {
    let mut b = Bench::ready(3);
    assert_eq!(
        b.schedule(),
        vec![
            CaptureAction::CaptureOutput { global: 10, frame: 1 },
            CaptureAction::CaptureOutput { global: 11, frame: 2 },
        ]
    );
    // Both are under way.
    assert!(b.schedule().is_empty());
    assert_eq!(b.capture.poll_timeout(b.now), -1);
    assert_eq!(
        b.copy(1),
        vec![
            CaptureAction::Allocate { frame: 1, info: info() },
            CaptureAction::CopyFrame { frame: 1, tag: 1, with_damage: true },
        ]
    );
    // 4x2 to a width of 2: one row of two pixels, each the mean of a 2x2 block.
    let mut pixels = vec![0u8; 32];
    for (i, p) in pixels.chunks_exact_mut(4).enumerate() {
        p.copy_from_slice(&[i as u8, 10 * i as u8, 20 * i as u8, 7]);
    }
    let out = b.ready_frame(1, &pixels);
    assert_eq!(out[0], CaptureAction::DestroyFrame { frame: 1 });
    match &out[1] {
        CaptureAction::Emit(Msg::Frame { output, thumb, reason }) => {
            assert_eq!((output.as_str(), *reason), ("HEADLESS-2", CaptureReason::Background));
            assert_eq!((thumb.width, thumb.height, thumb.taken_at), (2, 1, b.now));
            // Pixels 0, 1, 4, 5 and 2, 3, 6, 7.
            assert_eq!(thumb.rgba, vec![50, 25, 3, 255, 90, 45, 5, 255]);
        }
        other => panic!("{other:?}"),
    }
    // Not due for 400 ms.
    assert_eq!(b.capture.poll_timeout(b.now), 400);
    b.now += 399 * MS;
    assert!(b.schedule().is_empty());
    assert_eq!(b.capture.poll_timeout(b.now), 1);
    b.now += MS;
    assert_eq!(b.capture.poll_timeout(b.now), 0);
    assert_eq!(b.schedule(), vec![CaptureAction::CaptureOutput { global: 10, frame: 3 }]);
}

#[test]
fn a_buffer_is_reused_once_it_has_been_given_back() {
    let mut b = Bench::ready(3);
    b.request("HEADLESS-1", CaptureReason::Toggle);
    // Asked for, so at once and not at the next damage.
    assert_eq!(
        b.copy(1)[1],
        CaptureAction::CopyFrame { frame: 1, tag: 1, with_damage: false }
    );
    b.ready_frame(1, &[0; 32]);
    // Not given back: a new one in its place.
    b.request("HEADLESS-1", CaptureReason::Toggle);
    assert_eq!(
        b.copy(2),
        vec![
            CaptureAction::DropBuffer { tag: 1 },
            CaptureAction::Allocate { frame: 2, info: info() },
            CaptureAction::CopyFrame { frame: 2, tag: 2, with_damage: false },
        ]
    );
    b.ready_frame(2, &[0; 32]);
    // The old one coming back says nothing of the new one.
    b.input(CaptureInput::Released { tag: 1 });
    assert!(!b.capture.outputs[1].buffer.unwrap().released);
    b.input(CaptureInput::Released { tag: 2 });
    b.request("HEADLESS-1", CaptureReason::Toggle);
    assert_eq!(
        b.copy(3),
        vec![CaptureAction::CopyFrame { frame: 3, tag: 2, with_damage: false }]
    );
}

#[test]
fn a_request_supersedes_what_is_under_way_and_ignores_the_pause() {
    let mut b = Bench::ready(3);
    b.schedule();
    assert_eq!(
        b.request("HEADLESS-1", CaptureReason::Toggle),
        vec![
            CaptureAction::DestroyFrame { frame: 2 },
            CaptureAction::CaptureOutput { global: 11, frame: 3 },
        ]
    );
    // What is still said of the old frame is ignored.
    assert!(b.input(CaptureInput::Buffer { frame: 2, info: info() }).is_empty());
    assert!(b.input(CaptureInput::Failed { frame: 2 }).is_empty());
    // Pausing ends the background capture and spares the request.
    assert_eq!(
        b.input(CaptureInput::SetPaused(true)),
        vec![CaptureAction::DestroyFrame { frame: 1 }]
    );
    assert!(b.input(CaptureInput::SetPaused(true)).is_empty());
    assert!(b.schedule().is_empty());
    assert_eq!(b.capture.poll_timeout(b.now), -1);
    assert_eq!(
        b.request("HEADLESS-2", CaptureReason::Entered),
        vec![CaptureAction::CaptureOutput { global: 10, frame: 4 }]
    );
    assert_eq!(
        b.input(CaptureInput::Failed { frame: 4 }),
        vec![
            CaptureAction::DestroyFrame { frame: 4 },
            failed(
                "HEADLESS-2",
                CaptureReason::Entered,
                "compositor reported frame copy failure"
            ),
        ]
    );
    // Resuming makes everything due at once, the throttle notwithstanding.
    b.input(CaptureInput::SetPaused(false));
    assert_eq!(b.schedule(), vec![CaptureAction::CaptureOutput { global: 10, frame: 5 }]);
}

#[test]
fn an_unknown_output_is_a_failure() {
    let mut b = Bench::ready(3);
    assert_eq!(
        b.request("DP-9", CaptureReason::Toggle),
        vec![failed("DP-9", CaptureReason::Toggle, "unknown output")]
    );
}

#[test]
fn only_a_supported_layout_is_copied() {
    let mut b = Bench::ready(3);
    b.request("HEADLESS-1", CaptureReason::Toggle);
    let odd = BufInfo { format: ShmFormat::Other(0x3631_4752), ..info() };
    b.input(CaptureInput::Buffer { frame: 1, info: odd });
    assert_eq!(
        b.input(CaptureInput::BufferDone { frame: 1 }),
        vec![
            CaptureAction::DestroyFrame { frame: 1 },
            failed(
                "HEADLESS-1",
                CaptureReason::Toggle,
                "compositor offered no supported shm format"
            ),
        ]
    );
    // The first supported one counts.
    b.request("HEADLESS-1", CaptureReason::Toggle);
    b.input(CaptureInput::Buffer { frame: 2, info: odd });
    b.input(CaptureInput::Buffer { frame: 2, info: info() });
    b.input(CaptureInput::Buffer { frame: 2, info: BufInfo { width: 9, ..info() } });
    assert_eq!(
        b.input(CaptureInput::BufferDone { frame: 2 }),
        vec![CaptureAction::Allocate { frame: 2, info: info() }]
    );
}

#[test]
fn an_old_manager_copies_at_the_first_layout_and_without_damage() {
    let mut b = Bench::ready(1);
    b.schedule();
    assert_eq!(
        b.input(CaptureInput::Buffer { frame: 1, info: info() }),
        vec![CaptureAction::Allocate { frame: 1, info: info() }]
    );
    assert_eq!(
        b.input(CaptureInput::Allocated { frame: 1 }),
        vec![CaptureAction::CopyFrame { frame: 1, tag: 1, with_damage: false }]
    );
}

#[test]
fn a_buffer_that_cannot_be_had_is_a_failure() {
    let mut b = Bench::ready(3);
    b.request("HEADLESS-1", CaptureReason::Toggle);
    b.input(CaptureInput::Buffer { frame: 1, info: BufInfo { stride: 0, ..info() } });
    assert_eq!(
        b.input(CaptureInput::BufferDone { frame: 1 })[1],
        failed("HEADLESS-1", CaptureReason::Toggle, "zero-sized capture buffer")
    );
    b.request("HEADLESS-1", CaptureReason::Toggle);
    b.input(CaptureInput::Buffer { frame: 2, info: info() });
    b.input(CaptureInput::BufferDone { frame: 2 });
    assert_eq!(
        b.input(CaptureInput::AllocationFailed { frame: 2, error: "mmap: no".to_string() }),
        vec![
            CaptureAction::DestroyFrame { frame: 2 },
            failed("HEADLESS-1", CaptureReason::Toggle, "mmap: no"),
        ]
    );
    // A buffer for a frame that is gone meanwhile goes too.
    assert_eq!(
        b.input(CaptureInput::Allocated { frame: 2 }),
        vec![CaptureAction::DropBuffer { tag: 2 }]
    );
}

#[test]
fn a_frame_without_a_layout_or_buffer_is_a_failure() {
    let mut b = Bench::ready(3);
    b.request("HEADLESS-1", CaptureReason::Toggle);
    assert_eq!(
        b.ready_frame(1, &[])[1],
        failed("HEADLESS-1", CaptureReason::Toggle, "no supported shm buffer format")
    );
    b.request("HEADLESS-1", CaptureReason::Toggle);
    b.input(CaptureInput::Buffer { frame: 2, info: info() });
    assert_eq!(
        b.ready_frame(2, &[])[1],
        failed("HEADLESS-1", CaptureReason::Toggle, "capture buffer vanished")
    );
    assert!(b.ready_frame(7, &[]).is_empty());
}

#[test]
fn an_inverted_frame_is_turned_the_right_way_up() {
    let mut b = Bench::bare();
    b.capture.thumb_width = 4;
    b.global(1, "wl_shm", 1);
    b.global(2, "zwlr_screencopy_manager_v1", 3);
    b.output(10, "HEADLESS-1");
    b.request("HEADLESS-1", CaptureReason::Toggle);
    b.input(CaptureInput::Flags { frame: 1, flags: 1 });
    b.copy(1);
    let mut pixels = vec![0u8; 16];
    pixels.extend([200u8; 16]);
    match &b.ready_frame(1, &pixels)[1] {
        CaptureAction::Emit(Msg::Frame { thumb, .. }) => {
            assert_eq!((thumb.width, thumb.height), (4, 2));
            assert_eq!((thumb.rgba[0], thumb.rgba[16]), (200, 0));
        }
        other => panic!("{other:?}"),
    }
}

#[test]
fn an_output_that_goes_takes_everything_with_it() {
    let mut b = Bench::ready(3);
    b.schedule();
    b.copy(1);
    assert_eq!(
        b.input(CaptureInput::GlobalRemove { name: 10 }),
        vec![
            CaptureAction::DestroyFrame { frame: 1 },
            CaptureAction::ReleaseOutput { global: 10 },
            CaptureAction::DropBuffer { tag: 1 },
        ]
    );
    assert_eq!(
        b.publish(),
        vec![CaptureAction::Emit(Msg::CaptureOutputs(vec!["HEADLESS-1".to_string()]))]
    );
    assert!(b.input(CaptureInput::GlobalRemove { name: 10 }).is_empty());
}

#[test]
fn the_end_leaves_nothing_behind() {
    let mut b = Bench::ready(3);
    b.schedule();
    b.copy(2);
    b.input(CaptureInput::Shutdown);
    assert!(!b.capture.is_running());
    let mut out = Vec::new();
    b.capture.tear_down(&mut out);
    assert_eq!(
        out,
        vec![
            CaptureAction::DestroyFrame { frame: 1 },
            CaptureAction::DestroyFrame { frame: 2 },
            CaptureAction::ReleaseOutput { global: 10 },
            CaptureAction::DropBuffer { tag: 2 },
            CaptureAction::ReleaseOutput { global: 11 },
            CaptureAction::DestroyManager,
        ]
    );
    let mut b = Bench::bare();
    b.input(CaptureInput::ChannelClosed);
    assert!(!b.capture.is_running());
}

#[test]
fn a_picture_that_does_not_fit_in_memory_is_known_beforehand() {
    let mut b = Bench::bare();
    b.capture.thumb_width = u32::MAX;
    b.global(1, "wl_shm", 1);
    b.global(2, "zwlr_screencopy_manager_v1", 3);
    b.output(10, "HEADLESS-1");
    b.request("HEADLESS-1", CaptureReason::Toggle);
    let huge = BufInfo { width: u32::MAX, height: u32::MAX, ..info() };
    b.input(CaptureInput::Buffer { frame: 1, info: huge });
    assert!(!b.capture.fits(1));
    assert!(b.capture.fits(2));
}

#[test]
fn the_loop_takes_commands_first_and_sleeps_last() {
    let (mut pump, first) = Pump::new();
    assert_eq!(first, PumpAction::Receive);
    assert_eq!(pump.step(PumpEvent::Command, true), PumpAction::Receive);
    assert_eq!(pump.step(PumpEvent::NoCommand, true), PumpAction::Schedule);
    assert_eq!(pump.step(PumpEvent::Flushed(true), true), PumpAction::Prepare);
    // Events are there already.
    assert_eq!(
        pump.step(PumpEvent::Prepared(false), true),
        PumpAction::Dispatch { drain: false }
    );
    assert_eq!(pump.step(PumpEvent::Dispatched(true), true), PumpAction::Receive);
    pump.step(PumpEvent::NoCommand, true);
    pump.step(PumpEvent::Flushed(true), true);
    assert_eq!(pump.step(PumpEvent::Prepared(true), true), PumpAction::Poll);
    let mut interrupted = pump;
    assert_eq!(interrupted.step(PumpEvent::Interrupted, true), PumpAction::Receive);
    let ready = PumpEvent::Polled { readable: true, hung_up: false, woken: true };
    assert_eq!(pump.step(ready, true), PumpAction::Read);
    let mut broken = pump;
    assert_eq!(broken.step(PumpEvent::WasRead(false), true), PumpAction::Stop);
    assert_eq!(
        pump.step(PumpEvent::WasRead(true), true),
        PumpAction::Dispatch { drain: true }
    );
    assert_eq!(pump.step(PumpEvent::Dispatched(true), true), PumpAction::Publish);
    assert_eq!(pump.step(PumpEvent::Published, false), PumpAction::Stop);
}

#[test]
fn the_loop_ends_when_the_connection_or_the_owner_is_gone() {
    let polling = || {
        let (mut pump, _) = Pump::new();
        pump.step(PumpEvent::NoCommand, true);
        pump.step(PumpEvent::Flushed(true), true);
        pump.step(PumpEvent::Prepared(true), true);
        pump
    };
    let polled = |readable, hung_up| PumpEvent::Polled { readable, hung_up, woken: false };
    assert_eq!(polling().step(polled(false, true), true), PumpAction::Stop);
    assert_eq!(
        polling().step(polled(false, false), true),
        PumpAction::Dispatch { drain: false }
    );
    // What there is to read is read first.
    let mut pump = polling();
    assert_eq!(pump.step(polled(true, true), true), PumpAction::Read);
    assert_eq!(pump.step(PumpEvent::WasRead(true), true), PumpAction::Stop);
    assert_eq!(polling().step(PumpEvent::PollFailed, true), PumpAction::Stop);
    assert_eq!(Pump::new().0.step(PumpEvent::Disconnected, true), PumpAction::Stop);
    assert_eq!(Pump::new().0.step(PumpEvent::NoCommand, false), PumpAction::Stop);
    // What was not asked for ends it too.
    assert_eq!(Pump::new().0.step(PumpEvent::Published, true), PumpAction::Stop);
}

#[test]
fn a_thread_that_cannot_begin_says_why() {
    let e = || "no".to_string();
    assert_eq!(start_fault(StartFault::NotSpawned(e())), "cannot spawn capture thread: no");
    assert_eq!(start_fault(StartFault::NoPipe(e())), "pipe2: no");
    assert_eq!(start_fault(StartFault::NotConnected(e())), "wayland connect failed: no");
    assert_eq!(start_fault(StartFault::NoRoundtrip(e())), "wayland roundtrip failed: no");
    assert_eq!(start_fault(StartFault::Died), "capture thread died during startup");
}
