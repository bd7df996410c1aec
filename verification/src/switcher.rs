//! The state of the resident process and what each message and each gesture
//! does to it.
//!
//! A preview is a real workspace switch, so the switcher remembers where the
//! user was when the panel came up and goes back there when it goes down,
//! unless a choice was made. Captures are paused from the moment a show is
//! begun until the panel is down again, so that the panel is in no background
//! frame.

use crate::config::{Config, Mode};
use crate::model::{
    CaptureReason, Command, Msg, MsgView, Snapshot, SnapshotView, Thumbnail, ThumbnailView,
    WorkspaceView,
};
use crate::panel::{Gesture, GestureView, Panel, PanelAction, PanelActionView, PanelView, Turn};
use crate::text::same_text;
use vstd::hash_map::StringHashMap;
use vstd::prelude::*;

verus! {

/// Minimum spacing between background captures of one output, in milliseconds.
pub const CAPTURE_INTERVAL: u64 = 400;

/// How long to wait after a workspace switch before capturing the workspace
/// that was entered, in milliseconds: sway says so before it has rendered it.
pub const ENTERED_DELAY: u64 = 150;

/// How long a show waits for its fresh frame before going ahead, in
/// milliseconds.
pub const SHOW_FALLBACK: u64 = 60;

/// How long after showing the panel the cursor is nudged so that sway gives the
/// panel pointer focus, in milliseconds. Well inside the panel's grace period.
pub const POINTER_NUDGE_DELAY: u64 = 40;

/// A show that is waiting for its fresh capture, or for the fallback timer.
#[derive(Debug, PartialEq, Eq)]
pub struct PendingShow {
    pub output: String,
    /// Steps asked for before the panel was up, applied the moment it is.
    pub steps: i32,
}

pub ghost struct PendingShowView {
    pub output: Seq<char>,
    pub steps: i32,
}

impl DeepView for PendingShow {
    type V = PendingShowView;

    open spec fn deep_view(&self) -> PendingShowView {
        PendingShowView { output: self.output@, steps: self.steps }
    }
}

/// What is to be done outside, in order.
#[derive(Debug, PartialEq, Eq)]
pub enum Effect {
    /// Have sway switch to this workspace.
    SwitchTo { name: String, num: Option<i32> },
    /// Have sway look again what is under the pointer.
    NudgePointer,
    /// Pause or resume the background captures.
    SetPaused(bool),
    RequestCapture { output: String, reason: CaptureReason },
    /// Start the timer that ends the wait for a fresh frame.
    StartFallback,
    /// Stop that timer.
    CancelFallback,
    /// Call [`Switcher::entered_due`] for this output after [`ENTERED_DELAY`].
    EnteredLater { output: String },
    /// Call [`Switcher::nudge_due`] after [`POINTER_NUDGE_DELAY`].
    NudgeLater,
    /// Something for the window.
    Window(PanelAction),
    Shutdown,
}

pub ghost enum EffectView {
    SwitchTo { name: Seq<char>, num: Option<i32> },
    NudgePointer,
    SetPaused(bool),
    RequestCapture { output: Seq<char>, reason: CaptureReason },
    StartFallback,
    CancelFallback,
    EnteredLater { output: Seq<char> },
    NudgeLater,
    Window(PanelActionView),
    Shutdown,
}

impl DeepView for Effect {
    type V = EffectView;

    open spec fn deep_view(&self) -> EffectView {
        match self {
            Effect::SwitchTo { name, num } => EffectView::SwitchTo { name: name@, num: *num },
            Effect::NudgePointer => EffectView::NudgePointer,
            Effect::SetPaused(b) => EffectView::SetPaused(*b),
            Effect::RequestCapture { output, reason } => EffectView::RequestCapture {
                output: output@,
                reason: *reason,
            },
            Effect::StartFallback => EffectView::StartFallback,
            Effect::CancelFallback => EffectView::CancelFallback,
            Effect::EnteredLater { output } => EffectView::EnteredLater { output: output@ },
            Effect::NudgeLater => EffectView::NudgeLater,
            Effect::Window(a) => EffectView::Window(a.deep_view()),
            Effect::Shutdown => EffectView::Shutdown,
        }
    }
}

/// Everything the main loop knows.
pub struct Switcher {
    pub snapshot: Snapshot,
    /// Last known frame per workspace name. Memory only.
    pub thumbs: StringHashMap<Thumbnail>,
    /// The output the panel is shown on, if it is shown.
    pub shown_on: Option<String>,
    pub pending_show: Option<PendingShow>,
    /// The workspace that was focused when the panel was shown: where hiding it
    /// goes back to.
    pub preview_origin: Option<String>,
    /// Whether a preview has taken sway away from the origin.
    pub previewing: bool,
    pub panel: Panel,
    pub mode: Mode,
    /// In hold mode, whether the press that opens the panel already counts as a
    /// step.
    pub hold_selects_next: bool,
}

pub ghost struct SwitcherView {
    pub snapshot: SnapshotView,
    pub thumbs: Map<Seq<char>, ThumbnailView>,
    pub shown_on: Option<Seq<char>>,
    pub pending_show: Option<PendingShowView>,
    pub preview_origin: Option<Seq<char>>,
    pub previewing: bool,
    pub panel: PanelView,
    pub mode: Mode,
    pub hold_selects_next: bool,
}

/// A thumbnail cache with its thumbnails as views.
pub open spec fn thumb_map(m: Map<Seq<char>, Thumbnail>) -> Map<Seq<char>, ThumbnailView> {
    m.map_values(|t: Thumbnail| t.deep_view())
}

impl DeepView for Switcher {
    type V = SwitcherView;

    open spec fn deep_view(&self) -> SwitcherView {
        SwitcherView {
            snapshot: self.snapshot.deep_view(),
            thumbs: thumb_map(self.thumbs@),
            shown_on: self.shown_on.deep_view(),
            pending_show: self.pending_show.deep_view(),
            preview_origin: self.preview_origin.deep_view(),
            previewing: self.previewing,
            panel: self.panel.deep_view(),
            mode: self.mode,
            hold_selects_next: self.hold_selects_next,
        }
    }
}

/// A switcher after an operation, and what is to be done.
pub type Outcome = (SwitcherView, Seq<EffectView>);

/// The workspaces once sway shows `to` on `output`.
pub open spec fn shown_next(
    ws: Seq<WorkspaceView>,
    output: Seq<char>,
    to: Seq<char>,
) -> Seq<WorkspaceView> {
    Seq::new(
        ws.len(),
        |i: int|
            if ws[i].output == output {
                WorkspaceView { visible: ws[i].name == to, ..ws[i] }
            } else {
                ws[i]
            },
    )
}

/// The cache once a workspace carries another name.
pub open spec fn renamed(
    thumbs: Map<Seq<char>, ThumbnailView>,
    from: Seq<char>,
    to: Seq<char>,
) -> Map<Seq<char>, ThumbnailView> {
    let rest = thumbs.remove(to);
    if rest.dom().contains(from) {
        rest.remove(from).insert(to, rest[from])
    } else {
        rest
    }
}

impl SwitcherView {
    /// The switcher of a process that has just started.
    pub open spec fn fresh(config: Config) -> SwitcherView {
        SwitcherView {
            snapshot: SnapshotView { focused_output: seq![], workspaces: seq![] },
            thumbs: Map::empty(),
            shown_on: None,
            pending_show: None,
            preview_origin: None,
            previewing: false,
            panel: PanelView::fresh(config),
            mode: config.mode,
            hold_selects_next: config.hold_selects_next,
        }
    }

    /// What holds of every switcher.
    pub open spec fn wf(self) -> bool {
        &&& self.panel.wf()
        &&& self.shown_on is Some <==> self.panel.visible
        &&& self.preview_origin == if self.panel.visible {
            self.panel.origin
        } else {
            None
        }
        &&& self.previewing <==> (self.preview_origin is Some && self.panel.previewed
            != self.preview_origin)
        &&& self.pending_show is Some ==> !self.panel.visible
        &&& self.mode == self.panel.mode
    }

    // ------------------------------------------------- the panel's requests --

    /// A switch for good. While the panel stays up, that workspace is where
    /// closing it goes from now on.
    pub open spec fn on_switch(self, name: Seq<char>, num: Option<i32>) -> Outcome {
        (
            if self.shown_on is Some {
                SwitcherView { preview_origin: Some(name), previewing: false, ..self }
            } else {
                self
            },
            seq![EffectView::SwitchTo { name, num }],
        )
    }

    /// A preview: a switch, unless sway is there already.
    pub open spec fn on_preview(self, name: Seq<char>, num: Option<i32>) -> Outcome {
        match self.preview_origin {
            None => (self, seq![]),
            Some(origin) => if name == origin && !self.previewing {
                (self, seq![])
            } else {
                (
                    SwitcherView { previewing: name != origin, ..self },
                    seq![EffectView::SwitchTo { name, num }],
                )
            },
        }
    }

    /// Without the show that is pending.
    pub open spec fn without_pending_show(self) -> Outcome {
        (
            SwitcherView { pending_show: None, ..self },
            if self.pending_show is Some {
                seq![EffectView::CancelFallback]
            } else {
                seq![]
            },
        )
    }

    /// The panel is down: captures go on, and a preview that was not a choice
    /// is undone.
    pub open spec fn on_hidden(self, committed: bool) -> Outcome {
        let (s, out) = SwitcherView {
            shown_on: None,
            preview_origin: None,
            previewing: false,
            ..self
        }.without_pending_show();
        (
            s,
            out.push(EffectView::SetPaused(false)) + match self.preview_origin {
                Some(origin) => if self.previewing && !committed {
                    seq![EffectView::SwitchTo { name: origin, num: None }]
                } else {
                    seq![]
                },
                None => seq![],
            },
        )
    }

    pub open spec fn heed(self, a: PanelActionView) -> Outcome {
        match a {
            PanelActionView::Switch { name, num } => self.on_switch(name, num),
            PanelActionView::Preview { name, num } => self.on_preview(name, num),
            PanelActionView::Hidden { committed } => self.on_hidden(committed),
            other => (self, seq![EffectView::Window(other)]),
        }
    }

    /// Everything the panel asks for, in order.
    pub open spec fn heed_all(self, actions: Seq<PanelActionView>) -> Outcome
        decreases actions.len(),
    {
        if actions.len() == 0 {
            (self, seq![])
        } else {
            let (s, out) = self.heed_all(actions.drop_last());
            let (s2, out2) = s.heed(actions.last());
            (s2, out + out2)
        }
    }

    /// With the panel after its turn.
    pub open spec fn after(self, turn: Turn) -> Outcome {
        SwitcherView { panel: turn.0, ..self }.heed_all(turn.1)
    }

    // --------------------------------------------------- showing and hiding --

    /// The rows as of the last snapshot, if the panel is up.
    pub open spec fn repaint(self) -> Outcome {
        if self.panel.visible {
            let output = match self.shown_on {
                Some(o) => o,
                None => self.snapshot.focused_output,
            };
            self.after(self.panel.update(self.snapshot, output))
        } else {
            (self, seq![])
        }
    }

    /// The background captures pause, a fresh frame is asked for, and the panel
    /// comes when it lands.
    pub open spec fn begin_show(self) -> Outcome {
        let output = self.snapshot.focused_output;
        if self.pending_show is Some || output.len() == 0 {
            (self, seq![])
        } else {
            (
                SwitcherView { pending_show: Some(PendingShowView { output, steps: 0 }), ..self },
                seq![
                    EffectView::SetPaused(true),
                    EffectView::RequestCapture { output, reason: CaptureReason::Toggle },
                    EffectView::StartFallback,
                ],
            )
        }
    }

    /// Where the user is on `output`.
    pub open spec fn origin_on(self, output: Seq<char>) -> Option<Seq<char>> {
        match crate::lists::first(self.snapshot.on_output(output), |w: WorkspaceView| w.focused) {
            Some(w) => Some(w.name),
            None => match self.snapshot.visible_on(output) {
                Some(w) => Some(w.name),
                None => None,
            },
        }
    }

    /// The panel on `output`, and any steps that came before it was up.
    pub open spec fn do_show(self, output: Seq<char>, steps: i32, now: u64) -> Outcome {
        let origin = self.origin_on(output);
        let (s1, out1) = self.after(self.panel.update(self.snapshot, output));
        let (s2, out2) = s1.after(s1.panel.show(output, origin, now));
        let s3 = SwitcherView {
            shown_on: Some(output),
            preview_origin: origin,
            previewing: false,
            ..s2
        };
        let (s4, out4) = if steps != 0 {
            s3.after(s3.panel.step(steps))
        } else {
            (s3, seq![])
        };
        (s4, (out1 + out2 + out4).push(EffectView::NudgeLater))
    }

    /// The frame a show waits for landed, or will not come: it goes ahead.
    pub open spec fn complete_pending_show(self, output: Seq<char>, now: u64) -> Outcome {
        match self.pending_show {
            Some(p) => if p.output == output {
                let (s, out) = SwitcherView { pending_show: None, ..self }.do_show(
                    p.output,
                    p.steps,
                    now,
                );
                (s, seq![EffectView::CancelFallback] + out)
            } else {
                (self, seq![])
            },
            None => (self, seq![]),
        }
    }

    /// The wait for a fresh frame is over.
    pub open spec fn fallback_due(self, now: u64) -> Outcome {
        match self.pending_show {
            Some(p) => SwitcherView { pending_show: None, ..self }.do_show(p.output, p.steps, now),
            None => (self, seq![]),
        }
    }

    /// Down, whatever was going on.
    pub open spec fn put_down(self) -> Outcome {
        let (s1, out1) = self.without_pending_show();
        let (s2, out2) = s1.after(s1.panel.close(false));
        (
            SwitcherView { shown_on: None, preview_origin: None, previewing: false, ..s2 },
            (out1 + out2).push(EffectView::SetPaused(false)),
        )
    }

    /// `steps` workspaces on, showing the panel first if it is down.
    pub open spec fn step(self, steps: i32) -> Outcome {
        if self.panel.visible {
            self.after(self.panel.step(steps))
        } else {
            match self.pending_show {
                Some(p) => (
                    SwitcherView {
                        pending_show: Some(
                            PendingShowView { steps: p.steps.wrapping_add(steps), ..p },
                        ),
                        ..self
                    },
                    seq![],
                ),
                None => {
                    let (s, out) = self.begin_show();
                    match s.pending_show {
                        Some(p) => if self.mode is Hold && self.hold_selects_next {
                            (
                                SwitcherView {
                                    pending_show: Some(PendingShowView { steps, ..p }),
                                    ..s
                                },
                                out,
                            )
                        } else {
                            (s, out)
                        },
                        None => (s, out),
                    }
                },
            }
        }
    }

    // ------------------------------------------------------------- messages --

    /// A frame belongs to whatever is visible on that output now.
    pub open spec fn on_frame(self, output: Seq<char>, thumb: ThumbnailView) -> Outcome {
        match self.snapshot.visible_on(output) {
            Some(w) => {
                let s = SwitcherView { thumbs: self.thumbs.insert(w.name, thumb), ..self };
                if self.panel.visible {
                    s.heed_all(crate::panel::thumbs_for(self.panel.rendered, w.name))
                } else {
                    (s, seq![])
                }
            },
            None => (self, seq![]),
        }
    }

    pub open spec fn on_command(self, c: Command) -> Outcome {
        match c {
            Command::Toggle => if self.mode is Hold {
                self.step(1)
            } else if self.panel.visible || self.pending_show is Some {
                self.put_down()
            } else {
                self.begin_show()
            },
            Command::Show => if self.panel.visible {
                (self, seq![])
            } else {
                self.begin_show()
            },
            Command::Hide => self.put_down(),
            Command::Next => self.step(1),
            Command::Prev => self.step((-1) as i32),
            Command::Quit => (self, seq![EffectView::Shutdown]),
        }
    }

    /// One thing after another.
    pub open spec fn and_complete(
        so_far: Outcome,
        reason: CaptureReason,
        output: Seq<char>,
        now: u64,
    ) -> Outcome {
        if reason is Toggle {
            let (s, out) = so_far.0.complete_pending_show(output, now);
            (s, so_far.1 + out)
        } else {
            so_far
        }
    }

    pub open spec fn handle(self, msg: MsgView, now: u64) -> Outcome {
        match msg {
            MsgView::State(snapshot) => SwitcherView { snapshot, ..self }.repaint(),
            MsgView::WorkspaceSwitched { output, from, to } => (
                SwitcherView {
                    snapshot: SnapshotView {
                        workspaces: shown_next(self.snapshot.workspaces, output, to),
                        ..self.snapshot
                    },
                    ..self
                },
                seq![EffectView::EnteredLater { output }],
            ),
            MsgView::WorkspaceRenamed { from, to } => SwitcherView {
                thumbs: renamed(self.thumbs, from, to),
                ..self
            }.repaint(),
            MsgView::WorkspaceRemoved { name } => SwitcherView {
                thumbs: self.thumbs.remove(name),
                ..self
            }.repaint(),
            MsgView::Frame { output, thumb, reason } => SwitcherView::and_complete(
                self.on_frame(output, thumb),
                reason,
                output,
                now,
            ),
            MsgView::CaptureFailed { output, reason, error } => SwitcherView::and_complete(
                (self, seq![]),
                reason,
                output,
                now,
            ),
            MsgView::CaptureOutputs(_) => (self, seq![]),
            MsgView::Control(c) => self.on_command(c),
            MsgView::IpcLost(_) => (self, seq![EffectView::Shutdown]),
        }
    }

    pub open spec fn gesture(self, g: GestureView, now: u64) -> Outcome {
        self.after(self.panel.gesture(g, now))
    }

    /// The workspace entered a while ago has been rendered: it is captured,
    /// unless the panel would be in the picture.
    pub open spec fn entered_due(self, output: Seq<char>) -> Outcome {
        (
            self,
            if self.panel.visible {
                seq![]
            } else {
                seq![EffectView::RequestCapture { output, reason: CaptureReason::Entered }]
            },
        )
    }

    pub open spec fn nudge_due(self) -> Outcome {
        (
            self,
            if self.panel.visible {
                seq![EffectView::NudgePointer]
            } else {
                seq![]
            },
        )
    }
}

fn emit(fx: &mut Vec<Effect>, e: Effect)
    ensures
        final(fx).deep_view() == old(fx).deep_view().push(e.deep_view()),
{
    fx.push(e);
    assert(fx.deep_view() =~= old(fx).deep_view().push(e.deep_view()));
}

impl Switcher {
    /// The switcher of a process that has just started.
    pub fn new(config: &Config) -> (r: Switcher)
        ensures
            r.deep_view() == SwitcherView::fresh(*config),
            r.deep_view().wf(),
    {
        let thumbs: StringHashMap<Thumbnail> = StringHashMap::new();
        assert(thumb_map(thumbs@) =~= Map::empty());
        Switcher {
            snapshot: Snapshot::default(),
            thumbs,
            shown_on: None,
            pending_show: None,
            preview_origin: None,
            previewing: false,
            panel: Panel::new(config),
            mode: config.mode,
            hold_selects_next: config.hold_selects_next,
        }
    }

    pub fn is_visible(&self) -> (r: bool)
        ensures
            r == self.deep_view().panel.visible,
    {
        self.panel.is_visible()
    }

    // ------------------------------------------------- the panel's requests --

    fn on_switch(&mut self, name: String, num: Option<i32>, fx: &mut Vec<Effect>)
        ensures
            final(self).deep_view() == old(self).deep_view().on_switch(name@, num).0,
            final(fx).deep_view() == old(fx).deep_view() + old(self).deep_view().on_switch(
                name@,
                num,
            ).1,
    {
        if self.shown_on.is_some() {
            self.preview_origin = Some(name.clone());
            self.previewing = false;
        }
        emit(fx, Effect::SwitchTo { name, num });
    }

    fn on_preview(&mut self, name: String, num: Option<i32>, fx: &mut Vec<Effect>)
        ensures
            final(self).deep_view() == old(self).deep_view().on_preview(name@, num).0,
            final(fx).deep_view() == old(fx).deep_view() + old(self).deep_view().on_preview(
                name@,
                num,
            ).1,
    {
        let at_origin = match &self.preview_origin {
            Some(origin) => same_text(&name, origin),
            None => {
                return;
            },
        };
        if at_origin && !self.previewing {
            return;
        }
        self.previewing = !at_origin;
        emit(fx, Effect::SwitchTo { name, num });
    }

    fn without_pending_show(&mut self, fx: &mut Vec<Effect>)
        ensures
            final(self).deep_view() == old(self).deep_view().without_pending_show().0,
            final(fx).deep_view() == old(fx).deep_view()
                + old(self).deep_view().without_pending_show().1,
    {
        if self.pending_show.is_some() {
            self.pending_show = None;
            emit(fx, Effect::CancelFallback);
        }
    }

    fn on_hidden(&mut self, committed: bool, fx: &mut Vec<Effect>)
        ensures
            final(self).deep_view() == old(self).deep_view().on_hidden(committed).0,
            final(fx).deep_view() == old(fx).deep_view() + old(self).deep_view().on_hidden(
                committed,
            ).1,
    {
        let previewing = self.previewing;
        let origin = self.preview_origin.take();
        self.shown_on = None;
        self.previewing = false;
        self.without_pending_show(fx);
        emit(fx, Effect::SetPaused(false));
        if previewing && !committed {
            if let Some(name) = origin {
                emit(fx, Effect::SwitchTo { name, num: None });
            }
        }
    }

    fn heed(&mut self, a: PanelAction, fx: &mut Vec<Effect>)
        ensures
            final(self).deep_view() == old(self).deep_view().heed(a.deep_view()).0,
            final(fx).deep_view() == old(fx).deep_view() + old(self).deep_view().heed(
                a.deep_view(),
            ).1,
    {
        match a {
            PanelAction::Switch { name, num } => self.on_switch(name, num, fx),
            PanelAction::Preview { name, num } => self.on_preview(name, num, fx),
            PanelAction::Hidden { committed } => self.on_hidden(committed, fx),
            other => emit(fx, Effect::Window(other)),
        }
    }

    fn heed_all(&mut self, actions: Vec<PanelAction>, fx: &mut Vec<Effect>)
        ensures
            final(self).deep_view() == old(self).deep_view().heed_all(actions.deep_view()).0,
            final(fx).deep_view() == old(fx).deep_view() + old(self).deep_view().heed_all(
                actions.deep_view(),
            ).1,
    {
        let ghost all = actions.deep_view();
        let ghost start = self.deep_view();
        let ghost before = fx.deep_view();
        assert(all.take(0) =~= seq![]);
        for a in it: actions
            invariant
                it.seq().len() == all.len(),
                forall|k: int| 0 <= k < all.len() ==> it.seq()[k].deep_view() == #[trigger] all[k],
                self.deep_view() == start.heed_all(all.take(it.index() as int)).0,
                fx.deep_view() == before + start.heed_all(all.take(it.index() as int)).1,
        {
            let ghost i = it.index() as int;
            assert(all.take(i + 1).drop_last() =~= all.take(i));
            assert(all.take(i + 1).last() == a.deep_view());
            self.heed(a, fx);
        }
        assert(all.take(all.len() as int) =~= all);
    }

    // --------------------------------------------------- showing and hiding --

    fn repaint(&mut self, fx: &mut Vec<Effect>)
        ensures
            final(self).deep_view() == old(self).deep_view().repaint().0,
            final(fx).deep_view() == old(fx).deep_view() + old(self).deep_view().repaint().1,
    {
        if self.is_visible() {
            let output = match &self.shown_on {
                Some(o) => o.clone(),
                None => self.snapshot.focused_output.clone(),
            };
            self.update_panel(&output, fx);
        }
    }

    fn update_panel(&mut self, output: &str, fx: &mut Vec<Effect>)
        ensures
            ({
                let s = old(self).deep_view();
                let turn = s.panel.update(s.snapshot, output@);
                &&& final(self).deep_view() == s.after(turn).0
                &&& final(fx).deep_view() == old(fx).deep_view() + s.after(turn).1
            }),
    {
        let mut out: Vec<PanelAction> = Vec::new();
        assert(out.deep_view() =~= seq![]);
        self.panel.update(&self.snapshot, output, &mut out);
        self.heed_all(out, fx);
    }

    fn begin_show(&mut self, fx: &mut Vec<Effect>)
        ensures
            final(self).deep_view() == old(self).deep_view().begin_show().0,
            final(fx).deep_view() == old(fx).deep_view() + old(self).deep_view().begin_show().1,
    {
        proof {
            reveal_strlit("");
            assert(self.snapshot.focused_output@.len() == 0 ==> self.snapshot.focused_output@
                =~= ""@);
        }
        if self.pending_show.is_some() || same_text(&self.snapshot.focused_output, "") {
            return;
        }
        let output = self.snapshot.focused_output.clone();
        emit(fx, Effect::SetPaused(true));
        emit(
            fx,
            Effect::RequestCapture { output: output.clone(), reason: CaptureReason::Toggle },
        );
        emit(fx, Effect::StartFallback);
        self.pending_show = Some(PendingShow { output, steps: 0 });
    }

    fn origin_on(&self, output: &str) -> (r: Option<String>)
        ensures
            r.deep_view() == self.deep_view().origin_on(output@),
    {
        let rows = self.snapshot.on_output(output);
        let ghost all = rows.deep_view();
        let ghost p = |w: WorkspaceView| w.focused;
        for i in 0..rows.len()
            invariant
                all == rows.deep_view(),
                all == self.deep_view().snapshot.on_output(output@),
                p == (|w: WorkspaceView| w.focused),
                forall|j: int| 0 <= j < i ==> !p(#[trigger] all[j]),
        {
            assert(all[i as int] == rows@[i as int].deep_view());
            if rows[i].focused {
                proof {
                    crate::lists::lemma_position_is(all, p, i as int);
                }
                return Some(rows[i].name.clone());
            }
        }
        proof {
            crate::lists::lemma_position_none(all, p);
        }
        match self.snapshot.visible_on(output) {
            Some(w) => Some(w.name.clone()),
            None => None,
        }
    }

    fn step_panel(&mut self, steps: i32, fx: &mut Vec<Effect>)
        ensures
            ({
                let s = old(self).deep_view();
                &&& final(self).deep_view() == s.after(s.panel.step(steps)).0
                &&& final(fx).deep_view() == old(fx).deep_view() + s.after(s.panel.step(steps)).1
            }),
    {
        let mut out: Vec<PanelAction> = Vec::new();
        assert(out.deep_view() =~= seq![]);
        self.panel.step(steps, &mut out);
        self.heed_all(out, fx);
    }

    fn do_show(&mut self, output: String, steps: i32, now: u64, fx: &mut Vec<Effect>)
        ensures
            final(self).deep_view() == old(self).deep_view().do_show(output@, steps, now).0,
            final(fx).deep_view() == old(fx).deep_view() + old(self).deep_view().do_show(
                output@,
                steps,
                now,
            ).1,
    {
        let origin = self.origin_on(&output);
        self.update_panel(&output, fx);
        let mut out: Vec<PanelAction> = Vec::new();
        assert(out.deep_view() =~= seq![]);
        self.panel.show(
            &output,
            match &origin {
                Some(n) => Some(n.clone()),
                None => None,
            },
            now,
            &mut out,
        );
        self.heed_all(out, fx);
        self.shown_on = Some(output);
        self.preview_origin = origin;
        self.previewing = false;
        if steps != 0 {
            self.step_panel(steps, fx);
        }
        emit(fx, Effect::NudgeLater);
    }

    fn complete_pending_show(&mut self, output: &str, now: u64, fx: &mut Vec<Effect>)
        ensures
            final(self).deep_view() == old(self).deep_view().complete_pending_show(output@, now).0,
            final(fx).deep_view() == old(fx).deep_view()
                + old(self).deep_view().complete_pending_show(output@, now).1,
    {
        let awaited = match &self.pending_show {
            Some(p) => same_text(&p.output, output),
            None => false,
        };
        if awaited {
            if let Some(p) = self.pending_show.take() {
                emit(fx, Effect::CancelFallback);
                self.do_show(p.output, p.steps, now, fx);
            }
        }
    }

    /// No fresh frame came in time: the panel is shown all the same.
    pub fn fallback_due(&mut self, now: u64, fx: &mut Vec<Effect>)
        ensures
            old(self).deep_view().wf() ==> final(self).deep_view().wf(),
            final(self).deep_view() == old(self).deep_view().fallback_due(now).0,
            final(fx).deep_view() == old(fx).deep_view() + old(self).deep_view().fallback_due(
                now,
            ).1,
    {
        proof {
            if self.deep_view().wf() {
                crate::promises::law_a_switcher_stays_well_formed(
                    self.deep_view(),
                    crate::promises::Happening::FallbackDue,
                    now,
                );
            }
        }
        if let Some(p) = self.pending_show.take() {
            self.do_show(p.output, p.steps, now, fx);
        }
    }

    fn put_down(&mut self, fx: &mut Vec<Effect>)
        ensures
            final(self).deep_view() == old(self).deep_view().put_down().0,
            final(fx).deep_view() == old(fx).deep_view() + old(self).deep_view().put_down().1,
    {
        self.without_pending_show(fx);
        let mut out: Vec<PanelAction> = Vec::new();
        assert(out.deep_view() =~= seq![]);
        self.panel.close(false, &mut out);
        self.heed_all(out, fx);
        self.shown_on = None;
        self.preview_origin = None;
        self.previewing = false;
        emit(fx, Effect::SetPaused(false));
    }

    /// Move the selection `steps` workspaces on, wrapping, showing the panel
    /// first if it is down.
    ///
    /// Up, the panel steps. While a show still waits for its first frame, the
    /// step is queued. Down, this is a show; in hold mode with
    /// `hold_selects_next` the opening press is itself the first step, so that
    /// a quick tap lands on the next workspace.
    pub fn step(&mut self, steps: i32, fx: &mut Vec<Effect>)
        ensures
            old(self).deep_view().wf() ==> final(self).deep_view().wf(),
            final(self).deep_view() == old(self).deep_view().step(steps).0,
            final(fx).deep_view() == old(fx).deep_view() + old(self).deep_view().step(steps).1,
    {
        proof {
            if self.deep_view().wf() {
                crate::promises::lemma_step(self.deep_view(), steps);
            }
        }
        if self.is_visible() {
            self.step_panel(steps, fx);
            return;
        }
        if let Some(p) = self.pending_show.take() {
            self.pending_show = Some(
                PendingShow { output: p.output, steps: p.steps.wrapping_add(steps) },
            );
            return;
        }
        self.begin_show(fx);
        let hold = match self.mode {
            Mode::Hold => true,
            Mode::Toggle => false,
        };
        if hold && self.hold_selects_next {
            if let Some(p) = self.pending_show.take() {
                self.pending_show = Some(PendingShow { output: p.output, steps });
            }
        }
    }

    // ------------------------------------------------------------- messages --

    fn on_frame(&mut self, output: &str, thumb: Thumbnail, fx: &mut Vec<Effect>)
        ensures
            final(self).deep_view() == old(self).deep_view().on_frame(
                output@,
                thumb.deep_view(),
            ).0,
            final(fx).deep_view() == old(fx).deep_view() + old(self).deep_view().on_frame(
                output@,
                thumb.deep_view(),
            ).1,
    {
        let name = match self.snapshot.visible_on(output) {
            Some(w) => w.name.clone(),
            None => {
                return;
            },
        };
        let ghost cached = self.thumbs@;
        self.thumbs.insert(name.clone(), thumb);
        assert(thumb_map(self.thumbs@) =~= thumb_map(cached).insert(name@, thumb.deep_view()));
        if self.is_visible() {
            let mut out: Vec<PanelAction> = Vec::new();
            assert(out.deep_view() =~= seq![]);
            self.panel.set_thumbnail(&name, &mut out);
            self.heed_all(out, fx);
        }
    }

    fn mark_shown(&mut self, output: &str, to: &str)
        ensures
            final(self).deep_view() == (SwitcherView {
                snapshot: SnapshotView {
                    workspaces: shown_next(
                        old(self).deep_view().snapshot.workspaces,
                        output@,
                        to@,
                    ),
                    ..old(self).deep_view().snapshot
                },
                ..old(self).deep_view()
            }),
    {
        let ghost before = self.snapshot.workspaces.deep_view();
        let ghost after = shown_next(before, output@, to@);
        let n: usize = self.snapshot.workspaces.len();
        let ghost rest = self.deep_view();
        for i in 0..n
            invariant
                n == self.snapshot.workspaces@.len(),
                n == before.len(),
                after == shown_next(before, output@, to@),
                forall|k: int|
                    0 <= k < i ==> #[trigger] self.snapshot.workspaces.deep_view()[k] == after[k],
                forall|k: int|
                    i <= k < n ==> #[trigger] self.snapshot.workspaces.deep_view()[k] == before[k],
                self.deep_view() == (SwitcherView {
                    snapshot: SnapshotView {
                        workspaces: self.snapshot.workspaces.deep_view(),
                        ..rest.snapshot
                    },
                    ..rest
                }),
        {
            let ghost now = self.snapshot.workspaces.deep_view();
            assert(now[i as int] == self.snapshot.workspaces@[i as int].deep_view());
            if same_text(&self.snapshot.workspaces[i].output, output) {
                let shown = same_text(&self.snapshot.workspaces[i].name, to);
                self.snapshot.workspaces[i].visible = shown;
                assert(self.snapshot.workspaces.deep_view() =~= now.update(
                    i as int,
                    WorkspaceView { visible: shown, ..now[i as int] },
                ));
            }
        }
        assert(self.snapshot.workspaces.deep_view() =~= after);
    }

    fn rename_thumb(&mut self, from: &str, to: &str)
        ensures
            final(self).deep_view() == (SwitcherView {
                thumbs: renamed(old(self).deep_view().thumbs, from@, to@),
                ..old(self).deep_view()
            }),
    {
        let ghost cached = self.thumbs@;
        self.thumbs.remove(to);
        assert(thumb_map(self.thumbs@) =~= thumb_map(cached).remove(to@));
        let moved = match self.thumbs.get(from) {
            Some(t) => Some(t.clone()),
            None => None,
        };
        if let Some(t) = moved {
            let ghost rest = self.thumbs@;
            self.thumbs.remove(from);
            self.thumbs.insert(to.to_owned(), t);
            assert(thumb_map(self.thumbs@) =~= thumb_map(rest).remove(from@).insert(
                to@,
                thumb_map(rest)[from@],
            ));
        }
    }

    fn drop_thumb(&mut self, name: &str)
        ensures
            final(self).deep_view() == (SwitcherView {
                thumbs: old(self).deep_view().thumbs.remove(name@),
                ..old(self).deep_view()
            }),
    {
        let ghost cached = self.thumbs@;
        self.thumbs.remove(name);
        assert(thumb_map(self.thumbs@) =~= thumb_map(cached).remove(name@));
    }

    fn on_command(&mut self, c: Command, fx: &mut Vec<Effect>)
        ensures
            final(self).deep_view() == old(self).deep_view().on_command(c).0,
            final(fx).deep_view() == old(fx).deep_view() + old(self).deep_view().on_command(c).1,
    {
        match c {
            Command::Toggle => match self.mode {
                Mode::Hold => self.step(1, fx),
                Mode::Toggle => {
                    if self.is_visible() || self.pending_show.is_some() {
                        self.put_down(fx);
                    } else {
                        self.begin_show(fx);
                    }
                },
            },
            Command::Show => {
                if !self.is_visible() {
                    self.begin_show(fx);
                }
            },
            Command::Hide => self.put_down(fx),
            Command::Next => self.step(1, fx),
            Command::Prev => self.step(-1, fx),
            Command::Quit => emit(fx, Effect::Shutdown),
        }
    }

    /// Deal with one message. `now` is a monotonic clock in nanoseconds.
    pub fn handle(&mut self, msg: Msg, now: u64, fx: &mut Vec<Effect>)
        ensures
            old(self).deep_view().wf() ==> final(self).deep_view().wf(),
            final(self).deep_view() == old(self).deep_view().handle(msg.deep_view(), now).0,
            final(fx).deep_view() == old(fx).deep_view() + old(self).deep_view().handle(
                msg.deep_view(),
                now,
            ).1,
    {
        proof {
            if self.deep_view().wf() {
                crate::promises::law_a_switcher_stays_well_formed(
                    self.deep_view(),
                    crate::promises::Happening::Msg(msg.deep_view()),
                    now,
                );
            }
        }
        match msg {
            Msg::State(snapshot) => {
                self.snapshot = snapshot;
                self.repaint(fx);
            },
            Msg::WorkspaceSwitched { output, from: _, to } => {
                // A frame of the new workspace can land before the snapshot
                // that follows: it must not be filed under the one just left.
                self.mark_shown(&output, &to);
                emit(fx, Effect::EnteredLater { output });
            },
            Msg::WorkspaceRenamed { from, to } => {
                self.rename_thumb(&from, &to);
                self.repaint(fx);
            },
            Msg::WorkspaceRemoved { name } => {
                self.drop_thumb(&name);
                self.repaint(fx);
            },
            Msg::Frame { output, thumb, reason } => {
                self.on_frame(&output, thumb, fx);
                match reason {
                    CaptureReason::Toggle => self.complete_pending_show(&output, now, fx),
                    _ => {},
                }
            },
            Msg::CaptureFailed { output, reason, error: _ } => {
                match reason {
                    CaptureReason::Toggle => self.complete_pending_show(&output, now, fx),
                    _ => {},
                }
            },
            Msg::CaptureOutputs(_) => {},
            Msg::Control(c) => self.on_command(c, fx),
            Msg::IpcLost(_) => emit(fx, Effect::Shutdown),
        }
    }

    /// Deal with one gesture on the panel. Says whether a pressed key was the
    /// panel's.
    pub fn gesture(&mut self, g: Gesture, now: u64, fx: &mut Vec<Effect>) -> (r: bool)
        ensures
            old(self).deep_view().wf() ==> final(self).deep_view().wf(),
            r == (g matches Gesture::KeyPressed(key) && (key == crate::panel::KEY_ESCAPE
                || crate::panel::is_enter(key))),
            final(self).deep_view() == old(self).deep_view().gesture(g.deep_view(), now).0,
            final(fx).deep_view() == old(fx).deep_view() + old(self).deep_view().gesture(
                g.deep_view(),
                now,
            ).1,
    {
        proof {
            if self.deep_view().wf() {
                crate::promises::law_a_switcher_stays_well_formed(
                    self.deep_view(),
                    crate::promises::Happening::Gesture(g.deep_view()),
                    now,
                );
            }
        }
        let mut out: Vec<PanelAction> = Vec::new();
        assert(out.deep_view() =~= seq![]);
        let handled = self.panel.gesture(g, now, &mut out);
        self.heed_all(out, fx);
        handled
    }

    /// The workspace entered on `output` a while ago has been rendered.
    pub fn entered_due(&self, output: String, fx: &mut Vec<Effect>)
        ensures
            final(fx).deep_view() == old(fx).deep_view() + self.deep_view().entered_due(output@).1,
    {
        if !self.is_visible() {
            emit(fx, Effect::RequestCapture { output, reason: CaptureReason::Entered });
        }
    }

    /// The panel has been mapped for a while.
    pub fn nudge_due(&self, fx: &mut Vec<Effect>)
        ensures
            final(fx).deep_view() == old(fx).deep_view() + self.deep_view().nudge_due().1,
    {
        if self.is_visible() {
            emit(fx, Effect::NudgePointer);
        }
    }
}

} // verus!
