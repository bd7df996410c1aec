use svitek::config::{Config, Mode};
use svitek::model::{
    CaptureReason, Command, Msg, Snapshot, Thumbnail, WindowInfo, WorkspaceInfo,
};
use svitek::panel::{
    modifier_held, Gesture, Panel, PanelAction, PreviewSource, KEY_CONTROL_R, KEY_ESCAPE, KEY_HYPER_R,
    KEY_ISO_ENTER, KEY_KP_ENTER, KEY_META_L, KEY_RETURN, PREVIEW_GRACE,
};
use svitek::switcher::{Effect, Switcher};

const OUTPUT: &str = "HEADLESS-1";
const SUPER_L: u32 = 0xffeb;
const SHIFT_L: u32 = 0xffe1;
/// When the panel is shown, and a time when its grace period is over.
const SHOWN: u64 = 1_000_000_000;
const LATER: u64 = SHOWN + PREVIEW_GRACE;

fn workspace(num: i32, focused: bool) -> WorkspaceInfo {
    WorkspaceInfo {
        id: num as i64,
        num: Some(num),
        name: num.to_string(),
        output: OUTPUT.to_string(),
        focused,
        visible: focused,
        windows: vec![WindowInfo {
            id: 100 + num as i64,
            title: format!("window {num}"),
            app_id: None,
            focused,
        }],
    }
}

fn snapshot(focused: i32) -> Snapshot {
    Snapshot {
        focused_output: OUTPUT.to_string(),
        workspaces: (1..=5).map(|n| workspace(n, n == focused)).collect(),
    }
}

fn thumb(shade: u8) -> Thumbnail {
    Thumbnail { width: 1, height: 1, rgba: vec![shade, shade, shade, 255], taken_at: 0 }
}

/// A switcher and what it has had done, with where sway is.
struct Desk {
    switcher: Switcher,
    effects: Vec<Effect>,
    sway: String,
    paused: bool,
}

impl Desk {
    fn new(config: Config) -> Desk {
        let mut desk = Desk {
            switcher: Switcher::new(&config),
            effects: Vec::new(),
            sway: "2".to_string(),
            paused: false,
        };
        desk.msg(Msg::State(snapshot(2)));
        desk
    }

    fn took(&mut self, fx: Vec<Effect>) {
        for e in &fx {
            match e {
                Effect::SwitchTo { name, .. } => self.sway = name.clone(),
                Effect::SetPaused(b) => self.paused = *b,
                _ => {}
            }
        }
        self.effects = fx;
    }

    fn msg(&mut self, msg: Msg) {
        let mut fx = Vec::new();
        self.switcher.handle(msg, SHOWN, &mut fx);
        self.took(fx);
    }

    fn tell(&mut self, cmd: Command) {
        self.msg(Msg::Control(cmd));
    }

    fn gesture_at(&mut self, g: Gesture, now: u64) -> bool {
        let mut fx = Vec::new();
        let handled = self.switcher.gesture(g, now, &mut fx);
        self.took(fx);
        handled
    }

    fn gesture(&mut self, g: Gesture) -> bool {
        self.gesture_at(g, LATER)
    }

    fn hover(&mut self, n: i32) {
        // The first motion only arms.
        self.gesture(Gesture::Motion { name: n.to_string(), num: Some(n) });
        self.gesture(Gesture::Motion { name: n.to_string(), num: Some(n) });
    }

    fn preview(&mut self, n: i32) {
        self.hover(n);
        self.gesture(Gesture::DebounceElapsed);
    }

    fn shown(config: Config) -> Desk {
        let mut desk = Desk::new(config);
        desk.tell(Command::Show);
        desk.fallback();
        assert!(desk.switcher.is_visible());
        desk
    }

    fn fallback(&mut self) {
        let mut fx = Vec::new();
        self.switcher.fallback_due(SHOWN, &mut fx);
        self.took(fx);
    }

    fn panel(&self) -> &Panel {
        &self.switcher.panel
    }

    fn pending(&self) -> Option<&str> {
        self.panel().pending.as_ref().map(|p| p.name.as_str())
    }
}

fn hold() -> Config {
    Config { mode: Mode::Hold, ..Config::default() }
}

fn stay_open() -> Config {
    Config { close_on_select: false, ..Config::default() }
}

#[test]
fn a_show_waits_for_its_frame_and_captures_are_paused_meanwhile() {
    let mut desk = Desk::new(Config::default());
    desk.tell(Command::Toggle);
    assert_eq!(
        desk.effects,
        vec![
            Effect::SetPaused(true),
            Effect::RequestCapture { output: OUTPUT.to_string(), reason: CaptureReason::Toggle },
            Effect::StartFallback,
        ]
    );
    assert!(!desk.switcher.is_visible());
    // A background frame is not the one it waits for, nor is one elsewhere.
    let frame = |output: &str, reason| Msg::Frame {
        output: output.to_string(),
        thumb: thumb(9),
        reason,
    };
    desk.msg(frame(OUTPUT, CaptureReason::Background));
    desk.msg(frame("HEADLESS-2", CaptureReason::Toggle));
    assert!(!desk.switcher.is_visible());
    desk.msg(frame(OUTPUT, CaptureReason::Toggle));
    assert!(desk.switcher.is_visible());
    assert_eq!(desk.effects[0], Effect::CancelFallback);
    assert_eq!(desk.effects.last(), Some(&Effect::NudgeLater));
    assert!(desk
        .effects
        .contains(&Effect::Window(PanelAction::Present { output: OUTPUT.to_string() })));
    assert!(desk.paused);
    // The frame was filed under what was visible.
    assert_eq!(desk.switcher.thumbs.get("2"), Some(&thumb(9)));
}

#[test]
fn a_failed_capture_shows_the_panel_too() {
    let mut desk = Desk::new(Config::default());
    desk.tell(Command::Show);
    desk.msg(Msg::CaptureFailed {
        output: OUTPUT.to_string(),
        reason: CaptureReason::Toggle,
        error: "x".to_string(),
    });
    assert!(desk.switcher.is_visible());
}

#[test]
fn nothing_is_shown_before_sway_has_said_anything() {
    let mut switcher = Switcher::new(&Config::default());
    let mut fx = Vec::new();
    switcher.handle(Msg::Control(Command::Toggle), 0, &mut fx);
    assert!(fx.is_empty());
    assert!(switcher.pending_show.is_none());
}

#[test]
fn a_second_toggle_takes_a_pending_show_back() {
    let mut desk = Desk::new(Config::default());
    desk.tell(Command::Toggle);
    desk.tell(Command::Toggle);
    assert_eq!(desk.effects, vec![Effect::CancelFallback, Effect::SetPaused(false)]);
    desk.fallback();
    assert!(!desk.switcher.is_visible() && !desk.paused);
}

#[test]
fn closing_goes_back_whatever_was_previewed() {
    let outs: Vec<fn(&mut Desk)> = vec![
        |d| {
            d.gesture(Gesture::KeyPressed(KEY_ESCAPE));
        },
        |d| {
            d.gesture(Gesture::ClickOutside);
        },
        |d| d.tell(Command::Hide),
        |d| d.tell(Command::Toggle),
    ];
    for out in outs {
        let mut desk = Desk::shown(Config::default());
        desk.preview(4);
        assert_eq!(desk.sway, "4");
        desk.preview(5);
        assert_eq!(desk.sway, "5");
        out(&mut desk);
        assert_eq!(desk.sway, "2");
        assert!(!desk.switcher.is_visible() && !desk.paused);
    }
}

#[test]
fn closing_without_a_preview_asks_nothing_of_sway() {
    let mut desk = Desk::shown(Config::default());
    desk.gesture(Gesture::KeyPressed(KEY_ESCAPE));
    assert!(!desk.effects.iter().any(|e| matches!(e, Effect::SwitchTo { .. })));
    // A second Esc says nothing.
    assert!(desk.gesture(Gesture::KeyPressed(KEY_ESCAPE)));
    assert!(desk.effects.is_empty());
}

#[test]
fn enter_takes_the_selection_for_good() {
    for key in [KEY_RETURN, KEY_KP_ENTER, KEY_ISO_ENTER] {
        let mut desk = Desk::shown(Config::default());
        desk.preview(4);
        assert!(desk.gesture(Gesture::KeyPressed(key)));
        assert_eq!(desk.sway, "4");
        assert!(!desk.switcher.is_visible());
        // Hidden first, and then the switch, and no way back in between.
        assert_eq!(
            desk.effects,
            vec![
                Effect::Window(PanelAction::Restyle),
                Effect::Window(PanelAction::Withdraw),
                Effect::SetPaused(false),
                Effect::SwitchTo { name: "4".to_string(), num: Some(4) },
            ]
        );
    }
    // Inside the debounce it takes where the selection was going.
    let mut desk = Desk::shown(Config::default());
    desk.gesture(Gesture::Wheel { steps: 2 });
    desk.gesture(Gesture::KeyPressed(KEY_RETURN));
    assert_eq!(desk.sway, "4");
    // With nothing moved there is nowhere to go.
    let mut desk = Desk::shown(Config::default());
    desk.gesture(Gesture::KeyPressed(KEY_RETURN));
    assert!(!desk.effects.iter().any(|e| matches!(e, Effect::SwitchTo { .. })));
    assert!(!desk.switcher.is_visible());
    // Another key is not the panel's.
    let mut desk = Desk::shown(Config::default());
    assert!(!desk.gesture(Gesture::KeyPressed(0x61)));
}

#[test]
fn a_click_takes_its_own_row_and_closes() {
    let mut desk = Desk::shown(Config::default());
    desk.preview(5);
    desk.hover(4);
    desk.gesture(Gesture::Click { name: "3".to_string(), num: Some(3) });
    assert_eq!(desk.sway, "3");
    assert!(!desk.switcher.is_visible());
    assert_eq!(desk.effects[0], Effect::Window(PanelAction::StopDebounce));
}

#[test]
fn a_click_can_leave_the_panel_up_and_move_the_origin() {
    let mut desk = Desk::shown(stay_open());
    desk.preview(5);
    desk.gesture(Gesture::Click { name: "3".to_string(), num: Some(3) });
    assert_eq!(desk.sway, "3");
    assert!(desk.switcher.is_visible());
    assert_eq!(desk.panel().origin.as_deref(), Some("3"));
    desk.preview(1);
    assert_eq!(desk.sway, "1");
    desk.gesture(Gesture::KeyPressed(KEY_ESCAPE));
    assert_eq!(desk.sway, "3");
}

#[test]
fn a_click_that_comes_after_the_panel_went_down() {
    let click = || Gesture::Click { name: "3".to_string(), num: Some(3) };
    // With `close_on_select` it is nothing.
    let mut desk = Desk::new(Config::default());
    desk.gesture(click());
    assert!(desk.effects.is_empty());
    // Otherwise it goes there, and leaves the panel down.
    let mut desk = Desk::new(stay_open());
    desk.gesture(click());
    assert_eq!(
        desk.effects,
        vec![
            Effect::Window(PanelAction::Restyle),
            Effect::SwitchTo { name: "3".to_string(), num: Some(3) },
        ]
    );
    assert!(!desk.switcher.is_visible());
    assert_eq!(desk.panel().origin.as_deref(), Some("3"));
    assert_eq!(desk.switcher.preview_origin, None);
    // The next showing brings its own origin.
    desk.tell(Command::Show);
    desk.fallback();
    assert_eq!(desk.panel().origin.as_deref(), Some("2"));
    assert_eq!(desk.panel().previewed.as_deref(), Some("2"));
}

#[test]
fn hovering_the_origin_is_a_switch_only_on_the_way_back() {
    let mut desk = Desk::shown(Config::default());
    desk.hover(2);
    assert_eq!(desk.pending(), None, "the origin is shown already");
    desk.preview(4);
    desk.preview(2);
    assert_eq!(desk.sway, "2");
    assert_eq!(
        desk.effects.last(),
        Some(&Effect::SwitchTo { name: "2".to_string(), num: Some(2) })
    );
    desk.gesture(Gesture::ClickOutside);
    assert!(!desk.effects.iter().any(|e| matches!(e, Effect::SwitchTo { .. })));
}

#[test]
fn nothing_previews_itself() {
    let mut desk = Desk::shown(Config::default());
    let motion = || Gesture::Motion { name: "4".to_string(), num: Some(4) };
    let enter = || Gesture::Enter { name: "4".to_string(), num: Some(4) };
    // An enter under a stationary pointer, and everything within the grace
    // period, also with a clock that goes backwards.
    desk.gesture(enter());
    desk.gesture_at(motion(), LATER - 1);
    desk.gesture_at(motion(), SHOWN - 1);
    desk.gesture_at(Gesture::Wheel { steps: 1 }, LATER - 1);
    assert_eq!((desk.pending(), desk.panel().hover_armed), (None, false));
    // The first motion after it arms, the next one starts the debounce.
    desk.gesture(motion());
    assert_eq!((desk.pending(), desk.panel().hover_armed), (None, true));
    desk.gesture(motion());
    assert_eq!(desk.pending(), Some("4"));
    assert_eq!(desk.effects, vec![Effect::Window(PanelAction::StartDebounce)]);
    // A pointer that drifts does not start it anew.
    desk.gesture(motion());
    assert!(desk.effects.is_empty());
    // Hidden, nothing counts.
    desk.gesture(Gesture::KeyPressed(KEY_ESCAPE));
    desk.gesture(motion());
    desk.gesture(Gesture::Wheel { steps: 1 });
    desk.gesture(Gesture::DebounceElapsed);
    assert!(desk.effects.is_empty());
}

#[test]
fn leaving_a_row_cancels_a_hover_but_not_a_step() {
    let mut desk = Desk::shown(Config::default());
    desk.hover(4);
    desk.gesture(Gesture::Leave);
    assert_eq!(desk.pending(), None);
    assert_eq!(desk.effects, vec![Effect::Window(PanelAction::StopDebounce)]);
    desk.gesture(Gesture::Wheel { steps: 1 });
    desk.gesture(Gesture::Leave);
    assert_eq!(desk.pending(), Some("3"));
    // The step disarmed hovering: an enter from the list scrolling is nothing,
    // a real motion is.
    assert!(!desk.panel().hover_armed);
    desk.gesture(Gesture::Enter { name: "5".to_string(), num: Some(5) });
    assert_eq!(desk.pending(), Some("3"));
    desk.gesture(Gesture::Motion { name: "5".to_string(), num: Some(5) });
    assert_eq!(desk.pending(), Some("5"));
}

#[test]
fn many_wheel_steps_are_one_switch_and_stop_at_the_end() {
    let mut desk = Desk::shown(Config::default());
    let mut switches = 0;
    for want in ["3", "4", "5"] {
        desk.gesture(Gesture::Wheel { steps: 1 });
        assert_eq!(desk.pending(), Some(want));
        switches += desk.effects.iter().filter(|e| matches!(e, Effect::SwitchTo { .. })).count();
    }
    assert_eq!(switches, 0);
    assert_eq!(
        desk.effects,
        vec![
            Effect::Window(PanelAction::StopDebounce),
            Effect::Window(PanelAction::StartDebounce),
            Effect::Window(PanelAction::ScrollTo { row: 4 }),
        ]
    );
    // Clamped: nothing changes, and the debounce goes on.
    desk.gesture(Gesture::Wheel { steps: 3 });
    assert!(desk.effects.is_empty());
    desk.gesture(Gesture::DebounceElapsed);
    assert_eq!(desk.sway, "5");
    desk.gesture(Gesture::Wheel { steps: -9 });
    assert_eq!(desk.pending(), Some("1"));
}

#[test]
fn explicit_steps_wrap_and_ignore_the_grace_period() {
    let mut desk = Desk::shown(Config::default());
    desk.tell(Command::Prev);
    assert_eq!(desk.pending(), Some("1"));
    desk.tell(Command::Prev);
    assert_eq!(desk.pending(), Some("5"));
    desk.tell(Command::Next);
    assert_eq!(desk.pending(), Some("1"));
    assert_eq!(desk.panel().pending.as_ref().map(|p| p.source), Some(PreviewSource::Wheel));
}

#[test]
fn in_hold_mode_toggle_steps_and_letting_go_commits() {
    let mut desk = Desk::new(hold());
    // The opening press is the first step.
    desk.tell(Command::Toggle);
    desk.tell(Command::Toggle);
    assert_eq!(desk.switcher.pending_show.as_ref().map(|p| p.steps), Some(2));
    desk.fallback();
    assert_eq!(desk.pending(), Some("4"));
    desk.tell(Command::Toggle);
    assert_eq!(desk.pending(), Some("5"));
    // Shift is for going backwards, and a modifier that is held is no end.
    desk.gesture(Gesture::Active { modifier_held: true });
    desk.gesture(Gesture::KeyReleased(SHIFT_L));
    assert!(desk.switcher.is_visible());
    desk.gesture(Gesture::KeyReleased(SUPER_L));
    assert!(!desk.switcher.is_visible());
    assert_eq!(desk.sway, "5");

    for key in [KEY_CONTROL_R, KEY_META_L, KEY_HYPER_R] {
        let mut desk = Desk::shown(hold());
        desk.gesture(Gesture::KeyReleased(key));
        assert!(!desk.switcher.is_visible());
        // In toggle mode it is nothing.
        let mut desk = Desk::shown(Config::default());
        desk.gesture(Gesture::KeyReleased(key));
        assert!(desk.switcher.is_visible());
    }
}

#[test]
fn a_tap_that_is_over_too_soon_still_commits() {
    let mut desk = Desk::new(hold());
    desk.tell(Command::Next);
    desk.fallback();
    desk.gesture(Gesture::Active { modifier_held: false });
    assert!(!desk.switcher.is_visible());
    assert_eq!(desk.sway, "3");
    // The question is asked once per showing.
    let mut desk = Desk::new(hold());
    desk.tell(Command::Show);
    desk.fallback();
    desk.gesture(Gesture::Active { modifier_held: true });
    desk.gesture(Gesture::Active { modifier_held: false });
    assert!(desk.switcher.is_visible());
    // In toggle mode it does not matter.
    let mut desk = Desk::shown(Config::default());
    desk.gesture(Gesture::Active { modifier_held: false });
    assert!(desk.switcher.is_visible());
}

#[test]
fn shift_and_the_locks_are_no_hold() {
    // Shift, Caps Lock, the first mouse button, and bits of no meaning.
    assert!(!modifier_held(0));
    assert!(!modifier_held(0x1 | 0x2 | 0x100 | 0x2000_0000));
    // Control, Alt, Super, Hyper, Meta, also with Shift.
    for bit in [2, 3, 26, 27, 28] {
        assert!(modifier_held(1 << bit) && modifier_held(1 << bit | 0x1));
    }
}

#[test]
fn the_opening_press_need_not_be_a_step() {
    let mut desk = Desk::new(Config { hold_selects_next: false, ..hold() });
    desk.tell(Command::Toggle);
    desk.fallback();
    assert_eq!(desk.pending(), None);
    assert_eq!(desk.panel().previewed.as_deref(), Some("2"));
}

#[test]
fn rows_are_kept_when_only_flags_and_titles_change() {
    let mut desk = Desk::shown(Config::default());
    desk.gesture(Gesture::Wheel { steps: 1 });
    let mut moved = snapshot(3);
    moved.workspaces[0].windows[0].title = "retitled".to_string();
    desk.msg(Msg::State(moved));
    assert_eq!(
        desk.effects,
        vec![
            Effect::Window(PanelAction::Restyle),
            Effect::Window(PanelAction::RefreshThumbs),
        ]
    );
    assert_eq!(desk.pending(), Some("3"));
    // The marker is where closing goes, not where sway is.
    assert_eq!(desk.panel().focused_row(), Some(1));
    assert!(!desk.panel().is_marked_previewing(&desk.panel().rendered[2]));
    desk.gesture(Gesture::DebounceElapsed);
    assert!(desk.panel().is_marked_previewing(&desk.panel().rendered[2]));
    assert!(!desk.panel().is_marked_focused(&desk.panel().rendered[2]));

    // A workspace more is another matter.
    desk.hover(5);
    let mut more = snapshot(3);
    more.workspaces.push(workspace(6, false));
    desk.msg(Msg::State(more));
    assert_eq!(
        desk.effects,
        vec![
            Effect::Window(PanelAction::StopDebounce),
            Effect::Window(PanelAction::Rebuild),
            Effect::Window(PanelAction::RefreshThumbs),
        ]
    );
    assert!(!desk.panel().hover_armed);
    // The same again is nothing new.
    let mut more = snapshot(3);
    more.workspaces.push(workspace(6, false));
    desk.msg(Msg::State(more));
    assert_eq!(desk.effects, vec![Effect::Window(PanelAction::RefreshThumbs)]);
}

#[test]
fn thumbnails_follow_their_workspaces() {
    let mut desk = Desk::new(Config::default());
    let frame = |shade| Msg::Frame {
        output: OUTPUT.to_string(),
        thumb: thumb(shade),
        reason: CaptureReason::Background,
    };
    desk.msg(frame(2));
    assert_eq!(desk.switcher.thumbs.get("2"), Some(&thumb(2)));
    // A frame right after a switch is of the workspace entered.
    desk.msg(Msg::WorkspaceSwitched {
        output: OUTPUT.to_string(),
        from: Some("2".to_string()),
        to: "3".to_string(),
    });
    assert_eq!(desk.effects, vec![Effect::EnteredLater { output: OUTPUT.to_string() }]);
    desk.msg(frame(3));
    assert_eq!(desk.switcher.thumbs.get("2"), Some(&thumb(2)));
    assert_eq!(desk.switcher.thumbs.get("3"), Some(&thumb(3)));

    desk.msg(Msg::WorkspaceRenamed { from: "3".to_string(), to: "2".to_string() });
    assert_eq!(desk.switcher.thumbs.get("2"), Some(&thumb(3)));
    assert_eq!(desk.switcher.thumbs.get("3"), None);
    // Renaming one without a picture takes the new name's away.
    desk.msg(Msg::WorkspaceRenamed { from: "9".to_string(), to: "2".to_string() });
    assert_eq!(desk.switcher.thumbs.get("2"), None);

    desk.msg(frame(7));
    desk.msg(Msg::WorkspaceRemoved { name: "3".to_string() });
    assert_eq!(desk.switcher.thumbs.get("3"), None);

    // A frame of an output that shows nothing belongs to nobody.
    desk.msg(Msg::Frame {
        output: "HEADLESS-9".to_string(),
        thumb: thumb(1),
        reason: CaptureReason::Background,
    });
    assert!(desk.switcher.thumbs.is_empty());
}

#[test]
fn a_frame_that_comes_while_the_panel_is_up_goes_on_its_row() {
    let mut desk = Desk::shown(Config::default());
    desk.msg(Msg::Frame {
        output: OUTPUT.to_string(),
        thumb: thumb(5),
        reason: CaptureReason::Entered,
    });
    assert_eq!(desk.effects, vec![Effect::Window(PanelAction::SetThumb { row: 1 })]);
}

#[test]
fn what_was_put_off_is_done_only_if_it_still_fits() {
    let desk = Desk::new(Config::default());
    let mut fx = Vec::new();
    desk.switcher.entered_due(OUTPUT.to_string(), &mut fx);
    desk.switcher.nudge_due(&mut fx);
    assert_eq!(
        fx,
        vec![Effect::RequestCapture {
            output: OUTPUT.to_string(),
            reason: CaptureReason::Entered
        }]
    );
    let desk = Desk::shown(Config::default());
    let mut fx = Vec::new();
    desk.switcher.entered_due(OUTPUT.to_string(), &mut fx);
    desk.switcher.nudge_due(&mut fx);
    assert_eq!(fx, vec![Effect::NudgePointer]);
}

#[test]
fn quitting_and_losing_sway_are_the_end() {
    let mut desk = Desk::new(Config::default());
    desk.tell(Command::Quit);
    assert_eq!(desk.effects, vec![Effect::Shutdown]);
    desk.msg(Msg::IpcLost("gone".to_string()));
    assert_eq!(desk.effects, vec![Effect::Shutdown]);
    desk.msg(Msg::CaptureOutputs(vec![OUTPUT.to_string()]));
    assert!(desk.effects.is_empty());
}

#[test]
fn the_origin_falls_back_to_what_is_visible() {
    let mut desk = Desk::new(Config::default());
    let mut s = snapshot(2);
    for w in &mut s.workspaces {
        w.focused = false;
        w.visible = w.name == "4";
    }
    desk.msg(Msg::State(s));
    desk.tell(Command::Show);
    desk.fallback();
    assert_eq!(desk.panel().origin.as_deref(), Some("4"));
    assert_eq!(desk.panel().focused_row(), Some(3));
}

#[test]
fn the_thumbnail_width_is_kept_in_bounds() {
    let width = |w| Panel::new(&Config { thumbnail_width: w, ..Config::default() }).thumb_width;
    assert_eq!((width(10), width(240), width(5000)), (80, 240, 1000));
}
