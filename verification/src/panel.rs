//! The panel: which rows it holds, which of them is selected, and what a
//! gesture does to that.
//!
//! Hovering a row previews that workspace, which means really switching to it
//! with the panel left up on top: sway only renders the workspace it is
//! showing. The wheel and explicit steps move the same selection without the
//! pointer. A preview is asked for only after a debounce, so that sweeping
//! across rows or spinning the wheel is one switch and not five.
//!
//! The panel decides *when*; whether a switch is needed, and undoing it, is up
//! to the owner, who is told through [`PanelAction::Switch`],
//! [`PanelAction::Preview`] and [`PanelAction::Hidden`]. The other actions are
//! for the window.

use crate::config::{Config, Mode, Position};
use crate::model::{
    equal_workspaces, flags_only_change, Snapshot, SnapshotView, WorkspaceInfo,
    WorkspaceView,
};
use crate::selection::{clamp_step, commit_is_a_plain_hide, wrap_step};
use crate::text::same_text;
use vstd::prelude::*;

verus! {

/// How long the pointer has to rest on a row, or the wheel has to sit still,
/// before the selection is previewed, in milliseconds.
pub const PREVIEW_DEBOUNCE: u64 = 120;

/// Hovering and the wheel are dead for this long after the panel is shown, in
/// nanoseconds: the pointer is very often already over a row when it maps.
pub const PREVIEW_GRACE: u64 = 150_000_000;

/// The key values that mean something to the panel.
pub const KEY_ESCAPE: u32 = 0xff1b;

pub const KEY_RETURN: u32 = 0xff0d;

pub const KEY_KP_ENTER: u32 = 0xff8d;

pub const KEY_ISO_ENTER: u32 = 0xfe34;

/// `Control_L`, the first of the modifiers whose release commits; `Control_R`
/// follows it.
pub const KEY_CONTROL_L: u32 = 0xffe3;

pub const KEY_CONTROL_R: u32 = 0xffe4;

/// `Meta_L`, the first of eight: left and right of Meta, Alt, Super and Hyper.
pub const KEY_META_L: u32 = 0xffe7;

pub const KEY_HYPER_R: u32 = 0xffee;

/// The same modifiers in the mask of those that are down.
pub const MASK_CONTROL: u32 = 0x4;

pub const MASK_ALT: u32 = 0x8;

pub const MASK_SUPER: u32 = 0x400_0000;

pub const MASK_HYPER: u32 = 0x800_0000;

pub const MASK_META: u32 = 0x1000_0000;

/// Whether any modifier is down that a hold can be by: any but Shift, which is
/// for going backwards.
pub fn modifier_held(mask: u32) -> (r: bool)
    ensures
        r == (mask & MASK_CONTROL != 0 || mask & MASK_ALT != 0 || mask & MASK_SUPER != 0 || mask
            & MASK_HYPER != 0 || mask & MASK_META != 0),
        r <==> mask & 0x1c00_000c != 0,
{
    assert(mask & 0x1c00_000c != 0 <==> (mask & 0x4 != 0 || mask & 0x8 != 0 || mask & 0x400_0000
        != 0 || mask & 0x800_0000 != 0 || mask & 0x1000_0000 != 0)) by (bit_vector);
    mask & MASK_CONTROL != 0 || mask & MASK_ALT != 0 || mask & MASK_SUPER != 0 || mask & MASK_HYPER
        != 0 || mask & MASK_META != 0
}

/// Where a pending preview came from. The pointer leaving a row cancels a hover
/// debounce, but must not cancel one a step started: scrolling the selected row
/// into view moves the list under a stationary pointer, and the crossing events
/// that produces are not the user changing their mind.
#[derive(Debug, Clone, Copy, PartialEq, Eq, Structural)]
pub enum PreviewSource {
    Hover,
    Wheel,
}

/// A preview waiting out the debounce: the workspace it will ask for.
#[derive(Debug, PartialEq, Eq)]
pub struct Pending {
    pub name: String,
    pub num: Option<i32>,
    pub source: PreviewSource,
}

pub ghost struct PendingView {
    pub name: Seq<char>,
    pub num: Option<i32>,
    pub source: PreviewSource,
}

impl DeepView for Pending {
    type V = PendingView;

    open spec fn deep_view(&self) -> PendingView {
        PendingView { name: self.name@, num: self.num, source: self.source }
    }
}

/// What the panel wants done.
#[derive(Debug, PartialEq, Eq)]
#[allow(inconsistent_fields)]
pub enum PanelAction {
    /// Map the window on this output, and once it is laid out bring the row
    /// that wears the focused marker into view.
    Present { output: String },
    Withdraw,
    /// Start the debounce timer, which is not running.
    StartDebounce,
    /// Stop the debounce timer, which is running.
    StopDebounce,
    /// Bring this row into view.
    ScrollTo { row: usize },
    /// Make new widgets for all rows.
    Rebuild,
    /// Put markers, window titles and focused windows right on the rows there
    /// are.
    Restyle,
    /// Put the cached thumbnail, or none, on every row.
    RefreshThumbs,
    /// Put the thumbnail that just came on this row.
    SetThumb { row: usize },
    /// Switch to this workspace for good.
    Switch { name: String, num: Option<i32> },
    /// Show this workspace for now.
    Preview { name: String, num: Option<i32> },
    /// The panel went down; `committed` when a choice was made.
    Hidden { committed: bool },
}

#[allow(inconsistent_fields)]
pub ghost enum PanelActionView {
    Present { output: Seq<char> },
    Withdraw,
    StartDebounce,
    StopDebounce,
    ScrollTo { row: int },
    Rebuild,
    Restyle,
    RefreshThumbs,
    SetThumb { row: int },
    Switch { name: Seq<char>, num: Option<i32> },
    Preview { name: Seq<char>, num: Option<i32> },
    Hidden { committed: bool },
}

impl DeepView for PanelAction {
    type V = PanelActionView;

    open spec fn deep_view(&self) -> PanelActionView {
        match self {
            PanelAction::Present { output } => PanelActionView::Present { output: output@ },
            PanelAction::Withdraw => PanelActionView::Withdraw,
            PanelAction::StartDebounce => PanelActionView::StartDebounce,
            PanelAction::StopDebounce => PanelActionView::StopDebounce,
            PanelAction::ScrollTo { row } => PanelActionView::ScrollTo { row: *row as int },
            PanelAction::Rebuild => PanelActionView::Rebuild,
            PanelAction::Restyle => PanelActionView::Restyle,
            PanelAction::RefreshThumbs => PanelActionView::RefreshThumbs,
            PanelAction::SetThumb { row } => PanelActionView::SetThumb { row: *row as int },
            PanelAction::Switch { name, num } => PanelActionView::Switch {
                name: name@,
                num: *num,
            },
            PanelAction::Preview { name, num } => PanelActionView::Preview {
                name: name@,
                num: *num,
            },
            PanelAction::Hidden { committed } => PanelActionView::Hidden { committed: *committed },
        }
    }
}

/// What the user, the window or the debounce timer did. A row is named by the
/// workspace it stands for.
#[derive(Debug, PartialEq, Eq)]
#[allow(inconsistent_fields)]
pub enum Gesture {
    /// The pointer moved on a row.
    Motion { name: String, num: Option<i32> },
    /// The pointer crossed into a row.
    Enter { name: String, num: Option<i32> },
    /// The pointer left a row.
    Leave,
    /// The wheel turned by whole steps.
    Wheel { steps: i32 },
    /// A row was clicked.
    Click { name: String, num: Option<i32> },
    /// Something that is not the panel was clicked.
    ClickOutside,
    KeyPressed(u32),
    KeyReleased(u32),
    /// The window became active.
    Active { modifier_held: bool },
    DebounceElapsed,
}

#[allow(inconsistent_fields)]
pub ghost enum GestureView {
    Motion { name: Seq<char>, num: Option<i32> },
    Enter { name: Seq<char>, num: Option<i32> },
    Leave,
    Wheel { steps: i32 },
    Click { name: Seq<char>, num: Option<i32> },
    ClickOutside,
    KeyPressed(u32),
    KeyReleased(u32),
    Active { modifier_held: bool },
    DebounceElapsed,
}

impl DeepView for Gesture {
    type V = GestureView;

    open spec fn deep_view(&self) -> GestureView {
        match self {
            Gesture::Motion { name, num } => GestureView::Motion { name: name@, num: *num },
            Gesture::Enter { name, num } => GestureView::Enter { name: name@, num: *num },
            Gesture::Leave => GestureView::Leave,
            Gesture::Wheel { steps } => GestureView::Wheel { steps: *steps },
            Gesture::Click { name, num } => GestureView::Click { name: name@, num: *num },
            Gesture::ClickOutside => GestureView::ClickOutside,
            Gesture::KeyPressed(key) => GestureView::KeyPressed(*key),
            Gesture::KeyReleased(key) => GestureView::KeyReleased(*key),
            Gesture::Active { modifier_held } => GestureView::Active {
                modifier_held: *modifier_held,
            },
            Gesture::DebounceElapsed => GestureView::DebounceElapsed,
        }
    }
}

/// The panel. One resident window, unmapped while it is not shown.
#[derive(Debug, PartialEq, Eq)]
pub struct Panel {
    /// The workspaces the rows were made from.
    pub rendered: Vec<WorkspaceInfo>,
    pub visible: bool,
    /// The workspace that was focused when the panel was shown, for as long as
    /// it is shown, or a row that was clicked since: where closing goes back to.
    pub origin: Option<String>,
    /// The workspace the last preview asked for (the origin, to begin with).
    /// This is also the selection that the wheel and the steps move.
    pub previewed: Option<String>,
    /// The preview waiting out its debounce.
    pub pending: Option<Pending>,
    /// Whether an enter is the user hovering. GTK delivers one to whatever is
    /// under a stationary pointer too, as soon as the surface maps and after
    /// every rebuild.
    pub hover_armed: bool,
    /// Whether the pointer has moved over a row since the panel was shown.
    pub pointer_moved: bool,
    /// When the panel was shown, in nanoseconds of a monotonic clock.
    pub shown_at: Option<u64>,
    /// Whether the window has become active since the panel was shown.
    pub activated: bool,
    pub position: Position,
    pub thumb_width: i32,
    /// Whether clicking a row closes the panel, or only goes there.
    pub close_on_select: bool,
    pub mode: Mode,
}

pub ghost struct PanelView {
    pub rendered: Seq<WorkspaceView>,
    pub visible: bool,
    pub origin: Option<Seq<char>>,
    pub previewed: Option<Seq<char>>,
    pub pending: Option<PendingView>,
    pub hover_armed: bool,
    pub pointer_moved: bool,
    pub shown_at: Option<u64>,
    pub activated: bool,
    pub position: Position,
    pub thumb_width: i32,
    pub close_on_select: bool,
    pub mode: Mode,
}

impl DeepView for Panel {
    type V = PanelView;

    open spec fn deep_view(&self) -> PanelView {
        PanelView {
            rendered: self.rendered.deep_view(),
            visible: self.visible,
            origin: self.origin.deep_view(),
            previewed: self.previewed.deep_view(),
            pending: self.pending.deep_view(),
            hover_armed: self.hover_armed,
            pointer_moved: self.pointer_moved,
            shown_at: self.shown_at,
            activated: self.activated,
            position: self.position,
            thumb_width: self.thumb_width,
            close_on_select: self.close_on_select,
            mode: self.mode,
        }
    }
}

/// A panel after an operation, and what it wants done.
pub type Turn = (PanelView, Seq<PanelActionView>);

/// Having the name `name`.
pub open spec fn row_named(name: Seq<char>) -> spec_fn(WorkspaceView) -> bool {
    |w: WorkspaceView| w.name == name
}

/// The thumbnail that came for `name` goes on every row of that name.
pub open spec fn thumbs_for(rows: Seq<WorkspaceView>, name: Seq<char>) -> Seq<PanelActionView>
    decreases rows.len(),
{
    if rows.len() == 0 {
        seq![]
    } else {
        thumbs_for(rows.drop_last(), name) + if rows.last().name == name {
            seq![PanelActionView::SetThumb { row: rows.len() - 1 }]
        } else {
            seq![]
        }
    }
}

/// Whether releasing the key commits in hold mode: every modifier but Shift,
/// which is held for going backwards.
pub open spec fn is_hold_modifier(key: u32) -> bool {
    key == KEY_CONTROL_L || key == KEY_CONTROL_R || KEY_META_L <= key <= KEY_HYPER_R
}

/// Whether the key commits the selection when it is pressed.
pub open spec fn is_enter(key: u32) -> bool {
    key == KEY_RETURN || key == KEY_KP_ENTER || key == KEY_ISO_ENTER
}

/// The thumbnail width the panel is laid out for.
pub open spec fn panel_thumb_width(configured: u32) -> int {
    if configured < 80 {
        80
    } else if configured > 1000 {
        1000
    } else {
        configured as int
    }
}

impl PanelView {
    /// What holds of every panel.
    pub open spec fn wf(self) -> bool {
        &&& 80 <= self.thumb_width <= 1000
        &&& self.visible <==> self.shown_at is Some
        &&& !self.visible ==> {
            &&& self.previewed == self.origin
            &&& self.pending is None
            &&& !self.hover_armed
        }
        &&& self.origin is Some ==> self.previewed is Some
    }

    /// A hidden panel without rows.
    pub open spec fn fresh(config: Config) -> PanelView {
        PanelView {
            rendered: seq![],
            visible: false,
            origin: None,
            previewed: None,
            pending: None,
            hover_armed: false,
            pointer_moved: false,
            shown_at: None,
            activated: false,
            position: config.position,
            thumb_width: panel_thumb_width(config.thumbnail_width) as i32,
            close_on_select: config.close_on_select,
            mode: config.mode,
        }
    }

    /// Whether it is too soon after showing to believe the pointer or the wheel.
    pub open spec fn in_grace(self, now: u64) -> bool {
        match self.shown_at {
            Some(t) => now - t < PREVIEW_GRACE,
            None => true,
        }
    }

    /// Without a pending preview.
    pub open spec fn cancel_pending(self) -> Turn {
        (
            PanelView { pending: None, ..self },
            if self.pending is Some {
                seq![PanelActionView::StopDebounce]
            } else {
                seq![]
            },
        )
    }

    /// Whether the pointer started the pending preview.
    pub open spec fn hover_pending(self) -> bool {
        self.pending is Some && self.pending->0.source is Hover
    }

    pub open spec fn cancel_hover_pending(self) -> Turn {
        if self.hover_pending() {
            self.cancel_pending()
        } else {
            (self, seq![])
        }
    }

    /// With the debounce running for `name`, in place of whatever was pending.
    pub open spec fn arm_preview(
        self,
        name: Seq<char>,
        num: Option<i32>,
        source: PreviewSource,
    ) -> Turn {
        let (p, out) = self.cancel_pending();
        (
            PanelView { pending: Some(PendingView { name, num, source }), ..p },
            out.push(PanelActionView::StartDebounce),
        )
    }

    /// The selection: where a preview is on its way to, else what is being
    /// previewed.
    pub open spec fn live(self) -> Option<Seq<char>> {
        match self.pending {
            Some(p) => Some(p.name),
            None => if self.previewed is Some {
                self.previewed
            } else {
                self.origin
            },
        }
    }

    /// The row a step counts from.
    pub open spec fn base(self) -> int {
        match self.live() {
            Some(n) => match crate::lists::position(self.rendered, row_named(n)) {
                Some(i) => i,
                None => 0,
            },
            None => 0,
        }
    }

    /// With the selection on its way to row `target`; unchanged if it is there.
    pub open spec fn select(self, target: int) -> Turn {
        if target == self.base() {
            (self, seq![])
        } else {
            let row = self.rendered[target];
            let (p, out) = PanelView { hover_armed: false, ..self }.arm_preview(
                row.name,
                row.num,
                PreviewSource::Wheel,
            );
            (
                p,
                out.push(
                    PanelActionView::ScrollTo {
                        row: match crate::lists::position(self.rendered, row_named(row.name)) {
                            Some(i) => i,
                            None => target,
                        },
                    },
                ),
            )
        }
    }

    /// Explicit steps: wrapping, and not subject to the grace period.
    pub open spec fn step(self, steps: i32) -> Turn {
        if !self.visible || self.rendered.len() == 0 {
            (self, seq![])
        } else {
            self.select(
                crate::selection::wrapped(self.base(), steps as int, self.rendered.len() as int),
            )
        }
    }

    /// Whether a turn of the wheel counts.
    pub open spec fn listens_to_the_wheel(self, now: u64) -> bool {
        self.visible && !self.in_grace(now)
    }

    /// Steps of the wheel: stopping at both ends.
    pub open spec fn on_scroll(self, steps: i32, now: u64) -> Turn {
        if !self.listens_to_the_wheel(now) || steps == 0 || self.rendered.len() == 0 {
            (self, seq![])
        } else {
            self.select(
                crate::selection::clamped(self.base(), steps as int, self.rendered.len() as int),
            )
        }
    }

    /// With the debounce of a hover running for `name`, unless that is what is
    /// shown already.
    pub open spec fn arm_hover(self, name: Seq<char>, num: Option<i32>) -> Turn {
        if self.previewed == Some(name) {
            self.cancel_hover_pending()
        } else if self.hover_pending() && self.pending->0.name == name {
            (self, seq![])
        } else {
            self.arm_preview(name, num, PreviewSource::Hover)
        }
    }

    /// The pointer moved on `name`'s row. The first motion after the panel was
    /// shown only arms hovering.
    pub open spec fn on_hover_motion(self, name: Seq<char>, num: Option<i32>, now: u64) -> Turn {
        if !self.visible || self.in_grace(now) {
            (self, seq![])
        } else {
            let p = PanelView { hover_armed: true, pointer_moved: true, ..self };
            if self.pointer_moved {
                p.arm_hover(name, num)
            } else {
                (p, seq![])
            }
        }
    }

    /// The pointer crossed into `name`'s row.
    pub open spec fn on_hover_enter(self, name: Seq<char>, num: Option<i32>) -> Turn {
        if self.visible && self.hover_armed {
            self.arm_hover(name, num)
        } else {
            (self, seq![])
        }
    }

    /// The debounce is over: the pending preview is asked for.
    pub open spec fn debounce_elapsed(self) -> Turn {
        match self.pending {
            Some(pending) => if self.visible {
                (
                    PanelView { pending: None, previewed: Some(pending.name), ..self },
                    seq![
                        PanelActionView::Restyle,
                        PanelActionView::Preview { name: pending.name, num: pending.num },
                    ],
                )
            } else {
                (PanelView { pending: None, ..self }, seq![])
            },
            None => (self, seq![]),
        }
    }

    /// Down, with nothing left of this showing but the rows.
    pub open spec fn close(self, committed: bool) -> Turn {
        if !self.visible {
            (self, seq![])
        } else {
            let (p, out) = self.cancel_pending();
            (
                PanelView {
                    visible: false,
                    origin: None,
                    previewed: None,
                    hover_armed: false,
                    shown_at: None,
                    ..p
                },
                out + seq![
                    PanelActionView::Restyle,
                    PanelActionView::Withdraw,
                    PanelActionView::Hidden { committed },
                ],
            )
        }
    }

    /// Down for good: hidden first, and then the switch, unless there is
    /// nowhere to go.
    pub open spec fn commit(self, target: Option<(Seq<char>, Option<i32>)>) -> Turn {
        if !self.visible {
            (self, seq![])
        } else {
            let (p, out) = self.close(true);
            match target {
                Some((name, num)) => if crate::selection::nowhere_to_go(
                    Some(name),
                    self.previewed,
                    self.origin,
                    self.pending is Some,
                ) {
                    (p, out)
                } else {
                    (p, out.push(PanelActionView::Switch { name, num }))
                },
                None => (p, out),
            }
        }
    }

    /// The number of the first row of that name.
    pub open spec fn num_of(self, name: Seq<char>) -> Option<i32> {
        match crate::lists::first(self.rendered, row_named(name)) {
            Some(w) => w.num,
            None => None,
        }
    }

    /// What Enter takes: the target of the pending preview, else what is being
    /// previewed.
    pub open spec fn selected(self) -> Option<(Seq<char>, Option<i32>)> {
        match self.pending {
            Some(p) => Some((p.name, p.num)),
            None => match self.previewed {
                Some(n) => Some((n, self.num_of(n))),
                None => None,
            },
        }
    }

    pub open spec fn commit_selection(self) -> Turn {
        self.commit(self.selected())
    }

    /// With `name` as the origin, while the panel stays as it is.
    pub open spec fn adopt_origin(self, name: Seq<char>) -> Turn {
        let (p, out) = self.cancel_pending();
        (
            PanelView { origin: Some(name), previewed: Some(name), ..p },
            out.push(PanelActionView::Restyle),
        )
    }

    /// A row was clicked.
    pub open spec fn on_row_clicked(self, name: Seq<char>, num: Option<i32>) -> Turn {
        if self.close_on_select {
            self.commit(Some((name, num)))
        } else {
            let (p, out) = self.adopt_origin(name);
            (p, out.push(PanelActionView::Switch { name, num }))
        }
    }

    /// A key was pressed.
    pub open spec fn key_pressed(self, key: u32) -> Turn {
        if key == KEY_ESCAPE {
            self.close(false)
        } else if is_enter(key) {
            self.commit_selection()
        } else {
            (self, seq![])
        }
    }

    /// A key was released: in hold mode letting go of the modifier commits.
    pub open spec fn key_released(self, key: u32) -> Turn {
        if self.mode is Hold && is_hold_modifier(key) {
            self.commit_selection()
        } else {
            (self, seq![])
        }
    }

    /// The window became active, with a modifier held or not. In hold mode a
    /// modifier that is up already will send no release: the first time in a
    /// showing, that commits too.
    pub open spec fn on_active(self, modifier_held: bool) -> Turn {
        if !self.visible || self.activated {
            (self, seq![])
        } else {
            let p = PanelView { activated: true, ..self };
            if self.mode is Hold && !modifier_held {
                p.commit_selection()
            } else {
                (p, seq![])
            }
        }
    }

    pub open spec fn gesture(self, g: GestureView, now: u64) -> Turn {
        match g {
            GestureView::Motion { name, num } => self.on_hover_motion(name, num, now),
            GestureView::Enter { name, num } => self.on_hover_enter(name, num),
            GestureView::Leave => self.cancel_hover_pending(),
            GestureView::Wheel { steps } => self.on_scroll(steps, now),
            GestureView::Click { name, num } => self.on_row_clicked(name, num),
            GestureView::ClickOutside => self.close(false),
            GestureView::KeyPressed(key) => self.key_pressed(key),
            GestureView::KeyReleased(key) => self.key_released(key),
            GestureView::Active { modifier_held } => self.on_active(modifier_held),
            GestureView::DebounceElapsed => self.debounce_elapsed(),
        }
    }

    /// With the rows of `wanted`. Rows are kept while the panel is visible and
    /// only flags and titles differ: new ones would take the row from under the
    /// pointer.
    pub open spec fn with_rows(self, wanted: Seq<WorkspaceView>) -> Turn {
        if self.rendered == wanted {
            (self, seq![])
        } else if self.visible && crate::model::same_rows(self.rendered, wanted) {
            (PanelView { rendered: wanted, ..self }, seq![PanelActionView::Restyle])
        } else {
            let (p, out) = self.cancel_pending();
            (
                PanelView { rendered: wanted, hover_armed: false, ..p },
                out.push(PanelActionView::Rebuild),
            )
        }
    }

    pub open spec fn update(self, snapshot: SnapshotView, output: Seq<char>) -> Turn {
        let (p, out) = self.with_rows(snapshot.on_output(output));
        (p, out.push(PanelActionView::RefreshThumbs))
    }

    /// Up, with the selection on the origin.
    pub open spec fn show(self, output: Seq<char>, origin: Option<Seq<char>>, now: u64) -> Turn {
        let (p, out) = self.cancel_pending();
        (
            PanelView {
                visible: true,
                origin,
                previewed: origin,
                hover_armed: false,
                pointer_moved: false,
                shown_at: Some(now),
                activated: false,
                ..p
            },
            out + seq![PanelActionView::Restyle, PanelActionView::Present { output }],
        )
    }

    /// Whether the row wears the focused marker: while the panel is up that is
    /// the origin, whatever sway thinks is focused.
    pub open spec fn is_marked_focused(self, w: WorkspaceView) -> bool {
        match self.origin {
            Some(origin) => w.name == origin,
            None => w.focused,
        }
    }

    /// Whether the row is marked as previewed; never the origin.
    pub open spec fn is_marked_previewing(self, w: WorkspaceView) -> bool {
        self.previewed == Some(w.name) && self.origin != Some(w.name)
    }
}

fn emit(out: &mut Vec<PanelAction>, a: PanelAction)
    ensures
        final(out).deep_view() == old(out).deep_view().push(a.deep_view()),
{
    out.push(a);
    assert(out.deep_view() =~= old(out).deep_view().push(a.deep_view()));
}

fn copied(t: &Option<String>) -> (r: Option<String>)
    ensures
        r.deep_view() == t.deep_view(),
{
    match t {
        Some(n) => Some(n.clone()),
        None => None,
    }
}

fn is_text(t: &Option<String>, name: &str) -> (r: bool)
    ensures
        r == (t.deep_view() == Some(name@)),
{
    match t {
        Some(n) => same_text(n, name),
        None => false,
    }
}

fn copy_rows(rows: &Vec<&WorkspaceInfo>) -> (r: Vec<WorkspaceInfo>)
    ensures
        r.deep_view() == rows.deep_view(),
{
    let mut out: Vec<WorkspaceInfo> = Vec::new();
    for i in 0..rows.len()
        invariant
            out@.len() == i,
            forall|k: int| 0 <= k < i ==> #[trigger] out.deep_view()[k] == rows.deep_view()[k],
    {
        let ghost before = out.deep_view();
        let w = rows[i].clone();
        assert(rows.deep_view()[i as int] == w.deep_view());
        out.push(w);
        assert(out.deep_view() =~= before.push(w.deep_view()));
    }
    assert(out.deep_view() =~= rows.deep_view());
    out
}

impl Panel {
    /// A panel for this configuration, hidden and without rows.
    pub fn new(config: &Config) -> (r: Panel)
        ensures
            r.deep_view() == PanelView::fresh(*config),
            r.deep_view().wf(),
    {
        let thumb_width: i32 = if config.thumbnail_width < 80 {
            80
        } else if config.thumbnail_width > 1000 {
            1000
        } else {
            config.thumbnail_width as i32
        };
        let rendered: Vec<WorkspaceInfo> = Vec::new();
        assert(rendered.deep_view() =~= seq![]);
        Panel {
            rendered,
            visible: false,
            origin: None,
            previewed: None,
            pending: None,
            hover_armed: false,
            pointer_moved: false,
            shown_at: None,
            activated: false,
            position: config.position,
            thumb_width,
            close_on_select: config.close_on_select,
            mode: config.mode,
        }
    }

    pub fn is_visible(&self) -> (r: bool)
        ensures
            r == self.deep_view().visible,
    {
        self.visible
    }

    /// Whether the row wears the focused marker. While the panel is up that is
    /// the origin, whatever sway currently thinks is focused: a preview must
    /// not move the marker, or the user loses sight of where Esc goes back to.
    pub fn is_marked_focused(&self, w: &WorkspaceInfo) -> (r: bool)
        ensures
            r == self.deep_view().is_marked_focused(w.deep_view()),
    {
        match &self.origin {
            Some(origin) => same_text(&w.name, origin),
            None => w.focused,
        }
    }

    /// Whether the row is marked as the previewed one. The origin never is: it
    /// wears the focused marker, and hovering it is how to go back.
    pub fn is_marked_previewing(&self, w: &WorkspaceInfo) -> (r: bool)
        ensures
            r == self.deep_view().is_marked_previewing(w.deep_view()),
    {
        is_text(&self.previewed, &w.name) && !is_text(&self.origin, &w.name)
    }

    /// The first row that wears the focused marker.
    pub fn focused_row(&self) -> (r: Option<usize>)
        ensures
            (match r {
                Some(i) => Some(i as int),
                None => None,
            }) == crate::lists::position(
                self.deep_view().rendered,
                |w: WorkspaceView| self.deep_view().is_marked_focused(w),
            ),
    {
        let ghost all = self.deep_view().rendered;
        let ghost p = |w: WorkspaceView| self.deep_view().is_marked_focused(w);
        for i in 0..self.rendered.len()
            invariant
                all == self.deep_view().rendered,
                p == (|w: WorkspaceView| self.deep_view().is_marked_focused(w)),
                forall|j: int| 0 <= j < i ==> !p(#[trigger] all[j]),
        {
            assert(all[i as int] == self.rendered@[i as int].deep_view());
            if self.is_marked_focused(&self.rendered[i]) {
                proof {
                    crate::lists::lemma_position_is(all, p, i as int);
                }
                return Some(i);
            }
        }
        proof {
            crate::lists::lemma_position_none(all, p);
        }
        None
    }

    fn row_of(&self, name: &str) -> (r: Option<usize>)
        ensures
            (match r {
                Some(i) => Some(i as int),
                None => None,
            }) == crate::lists::position(self.deep_view().rendered, row_named(name@)),
            r matches Some(i) ==> i < self.rendered@.len(),
    {
        let ghost all = self.deep_view().rendered;
        let ghost p = row_named(name@);
        for i in 0..self.rendered.len()
            invariant
                all == self.deep_view().rendered,
                p == row_named(name@),
                forall|j: int| 0 <= j < i ==> !p(#[trigger] all[j]),
        {
            assert(all[i as int] == self.rendered@[i as int].deep_view());
            if same_text(&self.rendered[i].name, name) {
                proof {
                    crate::lists::lemma_position_is(all, p, i as int);
                }
                return Some(i);
            }
        }
        proof {
            crate::lists::lemma_position_none(all, p);
        }
        None
    }

    fn in_grace(&self, now: u64) -> (r: bool)
        ensures
            r == self.deep_view().in_grace(now),
    {
        match self.shown_at {
            Some(t) => now < t || now - t < PREVIEW_GRACE,
            None => true,
        }
    }

    // ---------------------------------------------------------- previews --

    fn cancel_pending(&mut self, out: &mut Vec<PanelAction>)
        ensures
            final(self).deep_view() == old(self).deep_view().cancel_pending().0,
            final(out).deep_view() == old(out).deep_view()
                + old(self).deep_view().cancel_pending().1,
    {
        if self.pending.is_some() {
            self.pending = None;
            emit(out, PanelAction::StopDebounce);
        }
    }

    fn hover_pending(&self) -> (r: bool)
        ensures
            r == self.deep_view().hover_pending(),
    {
        match &self.pending {
            Some(p) => match p.source {
                PreviewSource::Hover => true,
                PreviewSource::Wheel => false,
            },
            None => false,
        }
    }

    /// The pointer left a row. That only cancels a pending hover preview; one
    /// that has already happened stands until the panel closes.
    pub fn cancel_hover_pending(&mut self, out: &mut Vec<PanelAction>)
        ensures
            old(self).deep_view().wf() ==> final(self).deep_view().wf(),
            final(self).deep_view() == old(self).deep_view().cancel_hover_pending().0,
            final(out).deep_view() == old(out).deep_view()
                + old(self).deep_view().cancel_hover_pending().1,
    {
        if self.hover_pending() {
            self.cancel_pending(out);
        }
    }

    fn arm_preview(
        &mut self,
        name: String,
        num: Option<i32>,
        source: PreviewSource,
        out: &mut Vec<PanelAction>,
    )
        ensures
            final(self).deep_view() == old(self).deep_view().arm_preview(name@, num, source).0,
            final(out).deep_view() == old(out).deep_view() + old(self).deep_view().arm_preview(
                name@,
                num,
                source,
            ).1,
    {
        self.cancel_pending(out);
        self.pending = Some(Pending { name, num, source });
        emit(out, PanelAction::StartDebounce);
    }

    fn base(&self) -> (r: usize)
        ensures
            r == self.deep_view().base(),
            self.rendered@.len() > 0 ==> r < self.rendered@.len(),
    {
        let live = match &self.pending {
            Some(p) => Some(p.name.clone()),
            None => match &self.previewed {
                Some(n) => Some(n.clone()),
                None => copied(&self.origin),
            },
        };
        match live {
            Some(n) => match self.row_of(&n) {
                Some(i) => i,
                None => 0,
            },
            None => 0,
        }
    }

    fn select(&mut self, target: usize, out: &mut Vec<PanelAction>)
        requires
            target < old(self).rendered@.len(),
        ensures
            final(self).deep_view() == old(self).deep_view().select(target as int).0,
            final(out).deep_view() == old(out).deep_view() + old(self).deep_view().select(
                target as int,
            ).1,
    {
        if target == self.base() {
            return;
        }
        assert(self.deep_view().rendered[target as int]
            == self.rendered@[target as int].deep_view());
        let name = self.rendered[target].name.clone();
        let num = self.rendered[target].num;
        let row: usize = match self.row_of(&name) {
            Some(i) => i,
            None => target,
        };
        // A step acted last, so it owns the selection: a crossing event from
        // the list scrolling must not start a hover behind its back.
        self.hover_armed = false;
        self.arm_preview(name, num, PreviewSource::Wheel, out);
        emit(out, PanelAction::ScrollTo { row });
    }

    /// Move the selection `steps` rows on, wrapping: `svitek next` and `prev`,
    /// and the toggle binding in hold mode.
    pub fn step(&mut self, steps: i32, out: &mut Vec<PanelAction>)
        ensures
            old(self).deep_view().wf() ==> final(self).deep_view().wf(),
            final(self).deep_view() == old(self).deep_view().step(steps).0,
            final(out).deep_view() == old(out).deep_view() + old(self).deep_view().step(steps).1,
    {
        if !self.visible || self.rendered.len() == 0 {
            return;
        }
        let target: usize = wrap_step(self.base(), steps, self.rendered.len());
        proof {
            crate::selection::law_steps_land_on_a_row(
                self.deep_view().base(),
                steps as int,
                self.rendered@.len() as int,
            );
        }
        self.select(target, out);
    }

    /// Whether a turn of the wheel counts now.
    pub fn listens_to_the_wheel(&self, now: u64) -> (r: bool)
        ensures
            r == self.deep_view().listens_to_the_wheel(now),
    {
        self.visible && !self.in_grace(now)
    }

    /// The wheel turned by whole steps. Every step restarts the debounce:
    /// spinning through five rows is one workspace switch, not five.
    pub fn on_scroll(&mut self, steps: i32, now: u64, out: &mut Vec<PanelAction>)
        ensures
            old(self).deep_view().wf() ==> final(self).deep_view().wf(),
            final(self).deep_view() == old(self).deep_view().on_scroll(steps, now).0,
            final(out).deep_view() == old(out).deep_view() + old(self).deep_view().on_scroll(
                steps,
                now,
            ).1,
    {
        if !self.listens_to_the_wheel(now) || steps == 0 || self.rendered.len() == 0 {
            return;
        }
        let target: usize = clamp_step(self.base(), steps, self.rendered.len());
        self.select(target, out);
    }

    fn arm_hover(&mut self, name: &str, num: Option<i32>, out: &mut Vec<PanelAction>)
        ensures
            final(self).deep_view() == old(self).deep_view().arm_hover(name@, num).0,
            final(out).deep_view() == old(out).deep_view() + old(self).deep_view().arm_hover(
                name@,
                num,
            ).1,
    {
        if is_text(&self.previewed, name) {
            self.cancel_hover_pending(out);
            return;
        }
        if self.hover_pending() {
            // A timer already running for this row keeps running: restarting it
            // on every motion would mean a pointer that drifts never fires.
            if let Some(p) = &self.pending {
                if same_text(&p.name, name) {
                    return;
                }
            }
        }
        self.arm_preview(name.to_owned(), num, PreviewSource::Hover, out);
    }

    /// A motion event landed on `name`'s row. The first one after the panel was
    /// shown only arms hovering; from then on any motion may start the
    /// debounce.
    pub fn on_hover_motion(
        &mut self,
        name: &str,
        num: Option<i32>,
        now: u64,
        out: &mut Vec<PanelAction>,
    )
        ensures
            old(self).deep_view().wf() ==> final(self).deep_view().wf(),
            final(self).deep_view() == old(self).deep_view().on_hover_motion(name@, num, now).0,
            final(out).deep_view() == old(out).deep_view() + old(self).deep_view().on_hover_motion(
                name@,
                num,
                now,
            ).1,
    {
        if !self.visible || self.in_grace(now) {
            return;
        }
        let moved_before = self.pointer_moved;
        self.hover_armed = true;
        self.pointer_moved = true;
        if moved_before {
            self.arm_hover(name, num, out);
        }
    }

    /// The pointer crossed into `name`'s row. Only meaningful once hovering is
    /// armed: an enter also arrives for a stationary pointer when the surface
    /// maps, after every rebuild, and whenever the list scrolls under it.
    pub fn on_hover_enter(&mut self, name: &str, num: Option<i32>, out: &mut Vec<PanelAction>)
        ensures
            old(self).deep_view().wf() ==> final(self).deep_view().wf(),
            final(self).deep_view() == old(self).deep_view().on_hover_enter(name@, num).0,
            final(out).deep_view() == old(out).deep_view() + old(self).deep_view().on_hover_enter(
                name@,
                num,
            ).1,
    {
        if self.visible && self.hover_armed {
            self.arm_hover(name, num, out);
        }
    }

    /// The debounce timer ran out.
    pub fn debounce_elapsed(&mut self, out: &mut Vec<PanelAction>)
        ensures
            old(self).deep_view().wf() ==> final(self).deep_view().wf(),
            final(self).deep_view() == old(self).deep_view().debounce_elapsed().0,
            final(out).deep_view() == old(out).deep_view()
                + old(self).deep_view().debounce_elapsed().1,
    {
        if let Some(p) = self.pending.take() {
            if self.visible {
                self.previewed = Some(p.name.clone());
                emit(out, PanelAction::Restyle);
                emit(out, PanelAction::Preview { name: p.name, num: p.num });
            }
        }
    }

    // ----------------------------------------------------------- closing --

    /// Take the panel down. `committed` when the switch that follows is what
    /// the user asked for, so that a preview is not to be undone. A panel that
    /// is down stays so, and says nothing.
    pub fn close(&mut self, committed: bool, out: &mut Vec<PanelAction>)
        ensures
            old(self).deep_view().wf() ==> final(self).deep_view().wf(),
            final(self).deep_view() == old(self).deep_view().close(committed).0,
            final(out).deep_view() == old(out).deep_view() + old(self).deep_view().close(
                committed,
            ).1,
    {
        if !self.visible {
            return;
        }
        self.visible = false;
        self.cancel_pending(out);
        self.hover_armed = false;
        self.shown_at = None;
        self.previewed = None;
        self.origin = None;
        emit(out, PanelAction::Restyle);
        emit(out, PanelAction::Withdraw);
        emit(out, PanelAction::Hidden { committed });
    }

    fn commit(&mut self, target: Option<(String, Option<i32>)>, out: &mut Vec<PanelAction>)
        ensures
            final(self).deep_view() == old(self).deep_view().commit(
                match target {
                    Some((n, num)) => Some((n@, num)),
                    None => None,
                },
            ).0,
            final(out).deep_view() == old(out).deep_view() + old(self).deep_view().commit(
                match target {
                    Some((n, num)) => Some((n@, num)),
                    None => None,
                },
            ).1,
    {
        if !self.visible {
            return;
        }
        match target {
            Some((name, num)) => {
                let plain_hide = commit_is_a_plain_hide(
                    Some(name.as_str()),
                    match &self.previewed {
                        Some(n) => Some(n.as_str()),
                        None => None,
                    },
                    match &self.origin {
                        Some(n) => Some(n.as_str()),
                        None => None,
                    },
                    self.pending.is_some(),
                );
                self.close(true, out);
                if !plain_hide {
                    emit(out, PanelAction::Switch { name, num });
                }
            },
            None => {
                self.close(true, out);
            },
        }
    }

    /// Take the selection for real: what a preview is on its way to, else what
    /// is being previewed.
    pub fn commit_selection(&mut self, out: &mut Vec<PanelAction>)
        ensures
            old(self).deep_view().wf() ==> final(self).deep_view().wf(),
            final(self).deep_view() == old(self).deep_view().commit_selection().0,
            final(out).deep_view() == old(out).deep_view()
                + old(self).deep_view().commit_selection().1,
    {
        let target: Option<(String, Option<i32>)> = match &self.pending {
            Some(p) => Some((p.name.clone(), p.num)),
            None => match &self.previewed {
                Some(n) => {
                    let num = match self.row_of(n) {
                        Some(i) => self.rendered[i].num,
                        None => None,
                    };
                    Some((n.clone(), num))
                },
                None => None,
            },
        };
        self.commit(target, out);
    }

    /// A row was clicked. With `close_on_select` that is a commit of that row,
    /// whatever hover or the wheel had selected. Otherwise the click switches
    /// and makes the row the origin, leaving the panel up so that more
    /// workspaces can be visited. The next showing brings its own origin.
    pub fn on_row_clicked(&mut self, name: &str, num: Option<i32>, out: &mut Vec<PanelAction>)
        ensures
            old(self).deep_view().wf() ==> final(self).deep_view().wf(),
            final(self).deep_view() == old(self).deep_view().on_row_clicked(name@, num).0,
            final(out).deep_view() == old(out).deep_view() + old(self).deep_view().on_row_clicked(
                name@,
                num,
            ).1,
    {
        if self.close_on_select {
            self.commit(Some((name.to_owned(), num)), out);
        } else {
            self.cancel_pending(out);
            self.origin = Some(name.to_owned());
            self.previewed = Some(name.to_owned());
            emit(out, PanelAction::Restyle);
            emit(out, PanelAction::Switch { name: name.to_owned(), num });
        }
    }

    /// A key was pressed: Esc closes, Enter commits. Says whether the key was
    /// the panel's.
    pub fn key_pressed(&mut self, key: u32, out: &mut Vec<PanelAction>) -> (r: bool)
        ensures
            old(self).deep_view().wf() ==> final(self).deep_view().wf(),
            r == (key == KEY_ESCAPE || is_enter(key)),
            final(self).deep_view() == old(self).deep_view().key_pressed(key).0,
            final(out).deep_view() == old(out).deep_view() + old(self).deep_view().key_pressed(
                key,
            ).1,
    {
        if key == KEY_ESCAPE {
            self.close(false, out);
            true
        } else if key == KEY_RETURN || key == KEY_KP_ENTER || key == KEY_ISO_ENTER {
            self.commit_selection(out);
            true
        } else {
            false
        }
    }

    /// A key was released. In hold mode letting go of the modifier commits,
    /// also inside the debounce.
    pub fn key_released(&mut self, key: u32, out: &mut Vec<PanelAction>)
        ensures
            old(self).deep_view().wf() ==> final(self).deep_view().wf(),
            final(self).deep_view() == old(self).deep_view().key_released(key).0,
            final(out).deep_view() == old(out).deep_view() + old(self).deep_view().key_released(
                key,
            ).1,
    {
        let hold = match self.mode {
            Mode::Hold => true,
            Mode::Toggle => false,
        };
        if hold && (key == KEY_CONTROL_L || key == KEY_CONTROL_R || (KEY_META_L <= key && key
            <= KEY_HYPER_R)) {
            self.commit_selection(out);
        }
    }

    /// The window became active; `modifier_held` says whether a modifier whose
    /// release would commit is still down. On a quick tap it can be up before
    /// the window has the keyboard, and then no release will ever come.
    pub fn on_active(&mut self, modifier_held: bool, out: &mut Vec<PanelAction>)
        ensures
            old(self).deep_view().wf() ==> final(self).deep_view().wf(),
            final(self).deep_view() == old(self).deep_view().on_active(modifier_held).0,
            final(out).deep_view() == old(out).deep_view() + old(self).deep_view().on_active(
                modifier_held,
            ).1,
    {
        if !self.visible || self.activated {
            return;
        }
        self.activated = true;
        let hold = match self.mode {
            Mode::Hold => true,
            Mode::Toggle => false,
        };
        if hold && !modifier_held {
            self.commit_selection(out);
        }
    }

    /// Do what `g` asks for. Says whether a pressed key was the panel's.
    pub fn gesture(&mut self, g: Gesture, now: u64, out: &mut Vec<PanelAction>) -> (r: bool)
        ensures
            old(self).deep_view().wf() ==> final(self).deep_view().wf(),
            r == (g matches Gesture::KeyPressed(key) && (key == KEY_ESCAPE || is_enter(key))),
            final(self).deep_view() == old(self).deep_view().gesture(g.deep_view(), now).0,
            final(out).deep_view() == old(out).deep_view() + old(self).deep_view().gesture(
                g.deep_view(),
                now,
            ).1,
    {
        match g {
            Gesture::Motion { name, num } => self.on_hover_motion(&name, num, now, out),
            Gesture::Enter { name, num } => self.on_hover_enter(&name, num, out),
            Gesture::Leave => self.cancel_hover_pending(out),
            Gesture::Wheel { steps } => self.on_scroll(steps, now, out),
            Gesture::Click { name, num } => self.on_row_clicked(&name, num, out),
            Gesture::ClickOutside => self.close(false, out),
            Gesture::KeyPressed(key) => {
                return self.key_pressed(key, out);
            },
            Gesture::KeyReleased(key) => self.key_released(key, out),
            Gesture::Active { modifier_held } => self.on_active(modifier_held, out),
            Gesture::DebounceElapsed => self.debounce_elapsed(out),
        }
        false
    }

    // -------------------------------------------------------------- rows --

    /// Show the workspaces of `snapshot` that are on `output`, with whatever
    /// thumbnails there are. Cheap enough to call on every snapshot, also while
    /// hidden.
    ///
    /// While the panel is visible a change that is only flags and titles is
    /// applied in place: a preview is a real switch, so sway reports a focus
    /// change for every one, and new rows would destroy the one the pointer is
    /// on.
    pub fn update(&mut self, snapshot: &Snapshot, output: &str, out: &mut Vec<PanelAction>)
        ensures
            old(self).deep_view().wf() ==> final(self).deep_view().wf(),
            final(self).deep_view() == old(self).deep_view().update(
                snapshot.deep_view(),
                output@,
            ).0,
            final(out).deep_view() == old(out).deep_view() + old(self).deep_view().update(
                snapshot.deep_view(),
                output@,
            ).1,
    {
        let wanted = copy_rows(&snapshot.on_output(output));
        if !equal_workspaces(&self.rendered, &wanted) {
            if self.visible && flags_only_change(self.rendered.as_slice(), wanted.as_slice()) {
                emit(out, PanelAction::Restyle);
            } else {
                // Every row the pointer could be on is about to go. GTK hands
                // the new one an enter although the pointer never moved.
                self.cancel_pending(out);
                self.hover_armed = false;
                emit(out, PanelAction::Rebuild);
            }
            self.rendered = wanted;
        }
        emit(out, PanelAction::RefreshThumbs);
    }

    /// A frame of `workspace` came: put it on its row.
    pub fn set_thumbnail(&self, workspace: &str, out: &mut Vec<PanelAction>)
        ensures
            final(out).deep_view() == old(out).deep_view() + thumbs_for(
                self.deep_view().rendered,
                workspace@,
            ),
    {
        let ghost all = self.deep_view().rendered;
        let ghost before = out.deep_view();
        assert(all.take(0) =~= seq![]);
        for i in 0..self.rendered.len()
            invariant
                all == self.deep_view().rendered,
                out.deep_view() == before + thumbs_for(all.take(i as int), workspace@),
        {
            assert(all.take(i + 1).drop_last() =~= all.take(i as int));
            assert(all.take(i + 1).last() == self.rendered@[i as int].deep_view());
            if same_text(&self.rendered[i].name, workspace) {
                emit(out, PanelAction::SetThumb { row: i });
            }
        }
        assert(all.take(all.len() as int) =~= all);
    }

    /// Show the panel on `output`. `origin` is the workspace the user is on:
    /// the selection starts on it.
    pub fn show(
        &mut self,
        output: &str,
        origin: Option<String>,
        now: u64,
        out: &mut Vec<PanelAction>,
    )
        ensures
            old(self).deep_view().wf() ==> final(self).deep_view().wf(),
            final(self).deep_view() == old(self).deep_view().show(
                output@,
                origin.deep_view(),
                now,
            ).0,
            final(out).deep_view() == old(out).deep_view() + old(self).deep_view().show(
                output@,
                origin.deep_view(),
                now,
            ).1,
    {
        self.cancel_pending(out);
        self.previewed = copied(&origin);
        self.origin = origin;
        self.hover_armed = false;
        self.pointer_moved = false;
        self.activated = false;
        self.shown_at = Some(now);
        self.visible = true;
        emit(out, PanelAction::Restyle);
        emit(out, PanelAction::Present { output: output.to_owned() });
    }
}

} // verus!
