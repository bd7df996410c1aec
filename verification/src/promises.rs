//! What the switcher promises over everything that can happen to it.
//!
//! Looking around is free: whatever was previewed, closing the panel goes back
//! to where it was opened, and the only way to end up somewhere else is to
//! choose it.

use crate::model::{CaptureReason, Command, MsgView};
use crate::panel::{GestureView, PanelActionView, PanelView, Turn};
use crate::switcher::{EffectView, Outcome, SwitcherView};
use vstd::prelude::*;

verus! {

/// Anything that can happen to a switcher.
pub ghost enum Happening {
    Msg(MsgView),
    Gesture(GestureView),
    FallbackDue,
    EnteredDue(Seq<char>),
    NudgeDue,
}

/// What the switcher does about it.
pub open spec fn react(s: SwitcherView, e: Happening, now: u64) -> Outcome {
    match e {
        Happening::Msg(m) => s.handle(m, now),
        Happening::Gesture(g) => s.gesture(g, now),
        Happening::FallbackDue => s.fallback_due(now),
        Happening::EnteredDue(output) => s.entered_due(output),
        Happening::NudgeDue => s.nudge_due(),
    }
}

/// The last workspace sway is asked for.
pub open spec fn last_switch(fx: Seq<EffectView>) -> Option<Seq<char>>
    decreases fx.len(),
{
    if fx.len() == 0 {
        None
    } else {
        match fx.last() {
            EffectView::SwitchTo { name, num } => Some(name),
            _ => last_switch(fx.drop_last()),
        }
    }
}

/// What the capturer is told last about pausing.
pub open spec fn last_pause(fx: Seq<EffectView>) -> Option<bool>
    decreases fx.len(),
{
    if fx.len() == 0 {
        None
    } else {
        match fx.last() {
            EffectView::SetPaused(b) => Some(b),
            _ => last_pause(fx.drop_last()),
        }
    }
}

/// Whether the fallback timer was started or stopped last.
pub open spec fn last_fallback(fx: Seq<EffectView>) -> Option<bool>
    decreases fx.len(),
{
    if fx.len() == 0 {
        None
    } else {
        match fx.last() {
            EffectView::StartFallback => Some(true),
            EffectView::CancelFallback => Some(false),
            _ => last_fallback(fx.drop_last()),
        }
    }
}

/// Where sway is after these effects, if it was at `at` and nobody else moves
/// it.
pub open spec fn located(at: Seq<char>, fx: Seq<EffectView>) -> Seq<char> {
    match last_switch(fx) {
        Some(name) => name,
        None => at,
    }
}

/// Whether captures are paused after these effects.
pub open spec fn paused_after(paused: bool, fx: Seq<EffectView>) -> bool {
    match last_pause(fx) {
        Some(b) => b,
        None => paused,
    }
}

/// Whether the fallback timer runs after these effects.
pub open spec fn fallback_after(running: bool, fx: Seq<EffectView>) -> bool {
    match last_fallback(fx) {
        Some(b) => b,
        None => running,
    }
}

/// Being for the window alone.
pub open spec fn is_window(a: PanelActionView) -> bool {
    !(a is Switch || a is Preview || a is Hidden)
}

/// Being all for the window.
pub open spec fn all_window(w: Seq<PanelActionView>) -> bool {
    forall|i: int| 0 <= i < w.len() ==> is_window(#[trigger] w[i])
}

// ------------------------------------------------------------------ lemmas --

proof fn lemma_last_of_sum(a: Seq<EffectView>, b: Seq<EffectView>)
    ensures
        last_switch(a + b) == if last_switch(b) is Some {
            last_switch(b)
        } else {
            last_switch(a)
        },
        last_pause(a + b) == if last_pause(b) is Some {
            last_pause(b)
        } else {
            last_pause(a)
        },
        last_fallback(a + b) == if last_fallback(b) is Some {
            last_fallback(b)
        } else {
            last_fallback(a)
        },
    decreases b.len(),
{
    if b.len() == 0 {
        assert(a + b =~= a);
    } else {
        assert((a + b).drop_last() =~= a + b.drop_last());
        lemma_last_of_sum(a, b.drop_last());
    }
}

proof fn lemma_last_of_push(a: Seq<EffectView>, e: EffectView)
    ensures
        last_switch(a.push(e)) == match e {
            EffectView::SwitchTo { name, num } => Some(name),
            _ => last_switch(a),
        },
        last_pause(a.push(e)) == match e {
            EffectView::SetPaused(b) => Some(b),
            _ => last_pause(a),
        },
        last_fallback(a.push(e)) == match e {
            EffectView::StartFallback => Some(true),
            EffectView::CancelFallback => Some(false),
            _ => last_fallback(a),
        },
{
    assert(a.push(e).drop_last() =~= a);
}

pub(crate) proof fn lemma_heed_sum(s: SwitcherView, a: Seq<PanelActionView>, b: Seq<PanelActionView>)
    ensures
        ({
            let (s1, out1) = s.heed_all(a);
            let (s2, out2) = s1.heed_all(b);
            s.heed_all(a + b) == (s2, out1 + out2)
        }),
    decreases b.len(),
{
    if b.len() == 0 {
        assert(a + b =~= a);
        assert(s.heed_all(a).1 + seq![] =~= s.heed_all(a).1);
    } else {
        assert((a + b).drop_last() =~= a + b.drop_last());
        lemma_heed_sum(s, a, b.drop_last());
        let (s1, out1) = s.heed_all(a);
        let (s2, out2) = s1.heed_all(b.drop_last());
        let (s3, out3) = s2.heed(b.last());
        assert(out1 + out2 + out3 =~= out1 + (out2 + out3));
    }
}

pub(crate) proof fn lemma_heed_window(s: SwitcherView, w: Seq<PanelActionView>)
    requires
        all_window(w),
    ensures
        s.heed_all(w).0 == s,
        s.heed_all(w).1 =~= w.map_values(|a: PanelActionView| EffectView::Window(a)),
        last_switch(s.heed_all(w).1) is None,
        last_pause(s.heed_all(w).1) is None,
        last_fallback(s.heed_all(w).1) is None,
    decreases w.len(),
{
    if w.len() > 0 {
        lemma_heed_window(s, w.drop_last());
        assert(is_window(w[w.len() - 1]));
        lemma_last_of_sum(s.heed_all(w.drop_last()).1, s.heed(w.last()).1);
        lemma_last_of_push(seq![], s.heed(w.last()).1[0]);
        assert(s.heed(w.last()).1 =~= Seq::<EffectView>::empty().push(s.heed(w.last()).1[0]));
    }
}

pub(crate) proof fn lemma_heed_one(s: SwitcherView, a: PanelActionView)
    ensures
        s.heed_all(seq![a]) == s.heed(a),
{
    reveal_with_fuel(SwitcherView::heed_all, 2);
    assert(seq![a].drop_last() =~= seq![]);
    assert(Seq::<EffectView>::empty() + s.heed(a).1 =~= s.heed(a).1);
}

/// What becomes of a turn whose window actions come first.
proof fn lemma_after_tail(
    s: SwitcherView,
    p: PanelView,
    w: Seq<PanelActionView>,
    tail: Seq<PanelActionView>,
)
    requires
        all_window(w),
    ensures
        ({
            let own = SwitcherView { panel: p, ..s }.heed_all(tail);
            let all = s.after((p, w + tail));
            &&& all.0 == own.0
            &&& last_switch(all.1) == last_switch(own.1)
            &&& last_pause(all.1) == last_pause(own.1)
            &&& last_fallback(all.1) == last_fallback(own.1)
        }),
{
    let s1 = SwitcherView { panel: p, ..s };
    lemma_heed_sum(s1, w, tail);
    lemma_heed_window(s1, w);
    lemma_last_of_sum(s1.heed_all(w).1, s1.heed_all(tail).1);
}

proof fn lemma_after_window(s: SwitcherView, t: Turn)
    requires
        all_window(t.1),
    ensures
        s.after(t).0 == (SwitcherView { panel: t.0, ..s }),
        last_switch(s.after(t).1) is None,
        last_pause(s.after(t).1) is None,
        last_fallback(s.after(t).1) is None,
{
    lemma_heed_window(SwitcherView { panel: t.0, ..s }, t.1);
}

/// The effects of the panel going down and nothing more.
proof fn lemma_hidden_effects(s: SwitcherView, committed: bool)
    ensures
        ({
            let fx = s.on_hidden(committed).1;
            &&& last_pause(fx) == Some(false)
            &&& last_fallback(fx) == if s.pending_show is Some {
                Some(false)
            } else {
                None
            }
            &&& last_switch(fx) == if s.previewing && !committed {
                s.preview_origin
            } else {
                None
            }
        }),
{
    let bare = SwitcherView { shown_on: None, preview_origin: None, previewing: false, ..s };
    let out = bare.without_pending_show().1;
    reveal_with_fuel(last_switch, 3);
    reveal_with_fuel(last_pause, 3);
    reveal_with_fuel(last_fallback, 3);
    lemma_last_of_push(out, EffectView::SetPaused(false));
    let told = out.push(EffectView::SetPaused(false));
    let revert = match s.preview_origin {
        Some(origin) => if s.previewing && !committed {
            seq![EffectView::SwitchTo { name: origin, num: None }]
        } else {
            seq![]
        },
        None => seq![],
    };
    lemma_last_of_sum(told, revert);
    if out.len() > 0 {
        assert(out.drop_last() =~= seq![]);
    }
    if revert.len() > 0 {
        assert(revert.drop_last() =~= seq![]);
    }
}

/// The panel going down without a choice.
proof fn lemma_after_close(s: SwitcherView)
    requires
        s.wf(),
        s.panel.visible,
    ensures
        ({
            let r = s.after(s.panel.close(false));
            &&& r.0.wf()
            &&& !r.0.panel.visible
            &&& r.0.pending_show is None
            &&& r.0.shown_on is None
            &&& r.0.preview_origin is None
            &&& !r.0.previewing
            &&& last_pause(r.1) == Some(false)
            &&& last_fallback(r.1) is None
            &&& last_switch(r.1) == if s.previewing {
                s.preview_origin
            } else {
                None
            }
        }),
{
    let (p, out) = s.panel.close(false);
    let w = s.panel.cancel_pending().1 + seq![PanelActionView::Restyle, PanelActionView::Withdraw];
    let tail = seq![PanelActionView::Hidden { committed: false }];
    assert(out =~= w + tail);
    lemma_after_tail(s, p, w, tail);
    let s1 = SwitcherView { panel: p, ..s };
    lemma_heed_one(s1, tail[0]);
    lemma_hidden_effects(s1, false);
}

/// The panel going down with a choice.
proof fn lemma_after_commit(s: SwitcherView, target: Option<(Seq<char>, Option<i32>)>)
    requires
        s.wf(),
        s.panel.visible,
    ensures
        ({
            let r = s.after(s.panel.commit(target));
            &&& r.0.wf()
            &&& !r.0.panel.visible
            &&& r.0.pending_show is None
            &&& last_pause(r.1) == Some(false)
            &&& last_fallback(r.1) is None
            &&& last_switch(r.1) == match target {
                Some((name, num)) => if crate::selection::nowhere_to_go(
                    Some(name),
                    s.panel.previewed,
                    s.panel.origin,
                    s.panel.pending is Some,
                ) {
                    None
                } else {
                    Some(name)
                },
                None => None,
            }
        }),
{
    let (p, out) = s.panel.commit(target);
    let w = s.panel.cancel_pending().1 + seq![PanelActionView::Restyle, PanelActionView::Withdraw];
    let hidden = PanelActionView::Hidden { committed: true };
    let s1 = SwitcherView { panel: p, ..s };
    lemma_hidden_effects(s1, true);
    let gone = match target {
        Some((name, _)) => crate::selection::nowhere_to_go(
            Some(name),
            s.panel.previewed,
            s.panel.origin,
            s.panel.pending is Some,
        ),
        None => true,
    };
    if gone {
        assert(out =~= w + seq![hidden]);
        lemma_after_tail(s, p, w, seq![hidden]);
        lemma_heed_one(s1, hidden);
    } else {
        let (name, num) = target->Some_0;
        let switch = PanelActionView::Switch { name, num };
        assert(out =~= w + seq![hidden, switch]);
        lemma_after_tail(s, p, w, seq![hidden, switch]);
        assert(seq![hidden, switch] =~= seq![hidden] + seq![switch]);
        lemma_heed_sum(s1, seq![hidden], seq![switch]);
        lemma_heed_one(s1, hidden);
        let s2 = s1.heed(hidden).0;
        lemma_heed_one(s2, switch);
        let asked = s2.heed(switch).1;
        lemma_last_of_sum(s1.heed(hidden).1, asked);
        lemma_last_of_push(seq![], asked[0]);
        assert(asked =~= Seq::<EffectView>::empty().push(asked[0]));
    }
}

/// Whether sway is where the panel says, as far as it says anything: on what is
/// being previewed, which is the origin to begin with.
pub open spec fn tracks(s: SwitcherView, at: Seq<char>) -> bool {
    s.preview_origin is Some ==> s.panel.previewed == Some(at)
}

/// Whether the panel is up or about to be.
pub open spec fn busy(s: SwitcherView) -> bool {
    s.panel.visible || s.pending_show is Some
}

/// Gestures that move the selection ask for nothing but window work.
pub(crate) proof fn lemma_quiet_gestures(p: PanelView, g: GestureView, now: u64)
    requires
        p.wf(),
        g is Motion || g is Enter || g is Leave || g is Wheel,
    ensures
        ({
            let t = p.gesture(g, now);
            &&& t.0.wf()
            &&& all_window(t.1)
            &&& t.0.visible == p.visible
            &&& t.0.origin == p.origin
            &&& t.0.previewed == p.previewed
            &&& t.0.rendered == p.rendered
            &&& t.0.mode == p.mode
        }),
{
}

pub(crate) proof fn lemma_step_is_quiet(p: PanelView, steps: i32)
    requires
        p.wf(),
    ensures
        ({
            let t = p.step(steps);
            &&& t.0.wf()
            &&& all_window(t.1)
            &&& t.0.visible == p.visible
            &&& t.0.origin == p.origin
            &&& t.0.previewed == p.previewed
            &&& t.0.mode == p.mode
        }),
{
}

/// The debounce running out.
proof fn lemma_after_debounce(s: SwitcherView, at: Seq<char>)
    requires
        s.wf(),
        tracks(s, at),
    ensures
        ({
            let r = s.after(s.panel.debounce_elapsed());
            &&& r.0.wf()
            &&& tracks(r.0, located(at, r.1))
            &&& last_pause(r.1) is None
            &&& last_fallback(r.1) is None
            &&& busy(r.0) == busy(s)
            &&& r.0.pending_show == s.pending_show
        }),
{
    let (p, out) = s.panel.debounce_elapsed();
    match s.panel.pending {
        Some(pending) => {
            let w = seq![PanelActionView::Restyle];
            let tail = seq![PanelActionView::Preview { name: pending.name, num: pending.num }];
            assert(out =~= w + tail);
            lemma_after_tail(s, p, w, tail);
            let s1 = SwitcherView { panel: p, ..s };
            lemma_heed_one(s1, tail[0]);
            let asked = s1.heed(tail[0]).1;
            if asked.len() > 0 {
                lemma_last_of_push(seq![], asked[0]);
                assert(asked =~= Seq::<EffectView>::empty().push(asked[0]));
            }
        },
        None => {
            lemma_after_window(s, (p, out));
        },
    }
}

/// A click that leaves the panel as it is.
proof fn lemma_after_adopting(s: SwitcherView, name: Seq<char>, num: Option<i32>)
    requires
        s.wf(),
        !s.panel.close_on_select,
    ensures
        ({
            let r = s.after(s.panel.on_row_clicked(name, num));
            &&& r.0.wf()
            &&& s.panel.visible ==> r.0.preview_origin == Some(name)
            &&& !s.panel.visible ==> r.0 == (SwitcherView { panel: r.0.panel, ..s })
            &&& r.0.panel.previewed == Some(name)
            &&& r.0.panel.visible == s.panel.visible
            &&& r.0.pending_show == s.pending_show
            &&& last_pause(r.1) is None
            &&& last_fallback(r.1) is None
            &&& last_switch(r.1) == Some(name)
        }),
{
    let (p, out) = s.panel.on_row_clicked(name, num);
    let w = s.panel.cancel_pending().1 + seq![PanelActionView::Restyle];
    let tail = seq![PanelActionView::Switch { name, num }];
    assert(out =~= w + tail);
    lemma_after_tail(s, p, w, tail);
    let s1 = SwitcherView { panel: p, ..s };
    lemma_heed_one(s1, tail[0]);
    let asked = s1.heed(tail[0]).1;
    lemma_last_of_push(seq![], asked[0]);
    assert(asked =~= Seq::<EffectView>::empty().push(asked[0]));
}

/// Whether a click reaches the panel while it is down, with `close_on_select`
/// off.
pub open spec fn is_stray_click(p: PanelView, g: GestureView) -> bool {
    g is Click && !p.visible && !p.close_on_select
}

proof fn lemma_gesture(s: SwitcherView, g: GestureView, now: u64, at: Seq<char>, paused: bool)
    requires
        s.wf(),
        tracks(s, at),
        paused == busy(s),
    ensures
        ({
            let r = s.gesture(g, now);
            &&& r.0.wf()
            &&& tracks(r.0, located(at, r.1))
            &&& paused_after(paused, r.1) == busy(r.0)
            &&& !s.panel.visible && !is_stray_click(s.panel, g) ==> r.0 == s && last_switch(
                r.1,
            ) is None
            &&& r.0.panel.visible ==> s.panel.visible
            &&& last_fallback(r.1) is None
            &&& r.0.pending_show == s.pending_show
        }),
{
    let t = s.panel.gesture(g, now);
    if is_stray_click(s.panel, g) {
        if let GestureView::Click { name, num } = g {
            lemma_after_adopting(s, name, num);
        }
    } else if !s.panel.visible {
        assert(t.0 == s.panel);
        assert(t.1 =~= seq![]);
        lemma_after_window(s, t);
    } else {
        match g {
            GestureView::Click { name, num } => if s.panel.close_on_select {
                lemma_after_commit(s, Some((name, num)));
            } else {
                lemma_after_adopting(s, name, num);
            },
            GestureView::ClickOutside => lemma_after_close(s),
            GestureView::KeyPressed(key) => if key == crate::panel::KEY_ESCAPE {
                lemma_after_close(s);
            } else if crate::panel::is_enter(key) {
                lemma_after_commit(s, s.panel.selected());
            } else {
                lemma_after_window(s, t);
            },
            GestureView::KeyReleased(key) => if s.panel.mode is Hold
                && crate::panel::is_hold_modifier(key) {
                lemma_after_commit(s, s.panel.selected());
            } else {
                lemma_after_window(s, t);
            },
            GestureView::Active { modifier_held } => {
                let s1 = SwitcherView {
                    panel: PanelView { activated: true, ..s.panel },
                    ..s
                };
                if !s.panel.activated && s.panel.mode is Hold && !modifier_held {
                    lemma_after_commit(s1, s1.panel.selected());
                    assert(s.after(t) == s1.after(t));
                } else {
                    lemma_after_window(s, t);
                }
            },
            GestureView::DebounceElapsed => lemma_after_debounce(s, at),
            _ => {
                lemma_quiet_gestures(s.panel, g, now);
                lemma_after_window(s, t);
            },
        }
    }
}

pub(crate) proof fn lemma_update_is_quiet(
    p: PanelView,
    snapshot: crate::model::SnapshotView,
    output: Seq<char>,
)
    requires
        p.wf(),
    ensures
        ({
            let t = p.update(snapshot, output);
            &&& t.0.wf()
            &&& all_window(t.1)
            &&& t.0.visible == p.visible
            &&& t.0.origin == p.origin
            &&& t.0.previewed == p.previewed
            &&& t.0.mode == p.mode
        }),
{
}

pub(crate) proof fn lemma_thumbs_are_window_work(
    rows: Seq<crate::model::WorkspaceView>,
    name: Seq<char>,
)
    ensures
        all_window(crate::panel::thumbs_for(rows, name)),
    decreases rows.len(),
{
    if rows.len() > 0 {
        lemma_thumbs_are_window_work(rows.drop_last(), name);
    }
}

pub(crate) proof fn lemma_repaint(s: SwitcherView)
    requires
        s.wf(),
    ensures
        ({
            let r = s.repaint();
            &&& r.0.wf()
            &&& r.0.panel.visible == s.panel.visible
            &&& r.0.panel.previewed == s.panel.previewed
            &&& r.0 == (SwitcherView { panel: r.0.panel, ..s })
            &&& last_switch(r.1) is None
            &&& last_pause(r.1) is None
            &&& last_fallback(r.1) is None
        }),
{
    if s.panel.visible {
        let output = match s.shown_on {
            Some(o) => o,
            None => s.snapshot.focused_output,
        };
        lemma_update_is_quiet(s.panel, s.snapshot, output);
        lemma_after_window(s, s.panel.update(s.snapshot, output));
    }
}

pub(crate) proof fn lemma_on_frame(s: SwitcherView, output: Seq<char>, thumb: crate::model::ThumbnailView)
    requires
        s.wf(),
    ensures
        ({
            let r = s.on_frame(output, thumb);
            &&& r.0 == (SwitcherView { thumbs: r.0.thumbs, ..s })
            &&& last_switch(r.1) is None
            &&& last_pause(r.1) is None
            &&& last_fallback(r.1) is None
        }),
{
    match s.snapshot.visible_on(output) {
        Some(w) => {
            let s1 = SwitcherView { thumbs: s.thumbs.insert(w.name, thumb), ..s };
            if s.panel.visible {
                lemma_thumbs_are_window_work(s.panel.rendered, w.name);
                lemma_heed_window(s1, crate::panel::thumbs_for(s.panel.rendered, w.name));
            }
        },
        None => {},
    }
}

/// The panel coming up.
proof fn lemma_do_show(s: SwitcherView, output: Seq<char>, steps: i32, now: u64)
    requires
        s.wf(),
        !s.panel.visible,
        s.pending_show is None,
    ensures
        ({
            let r = s.do_show(output, steps, now);
            &&& r.0.wf()
            &&& r.0.panel.visible
            &&& r.0.shown_on == Some(output)
            &&& r.0.preview_origin == s.origin_on(output)
            &&& r.0.panel.previewed == s.origin_on(output)
            &&& r.0.pending_show is None
            &&& last_switch(r.1) is None
            &&& last_pause(r.1) is None
            &&& last_fallback(r.1) is None
        }),
{
    let origin = s.origin_on(output);
    let t1 = s.panel.update(s.snapshot, output);
    lemma_update_is_quiet(s.panel, s.snapshot, output);
    lemma_after_window(s, t1);
    let (s1, out1) = s.after(t1);
    let t2 = s1.panel.show(output, origin, now);
    assert(all_window(t2.1));
    lemma_after_window(s1, t2);
    let (s2, out2) = s1.after(t2);
    let s3 = SwitcherView {
        shown_on: Some(output),
        preview_origin: origin,
        previewing: false,
        ..s2
    };
    lemma_step_is_quiet(s3.panel, steps);
    lemma_after_window(s3, s3.panel.step(steps));
    let out4 = if steps != 0 {
        s3.after(s3.panel.step(steps)).1
    } else {
        seq![]
    };
    lemma_last_of_sum(out1, out2);
    lemma_last_of_sum(out1 + out2, out4);
    lemma_last_of_push(out1 + out2 + out4, EffectView::NudgeLater);
}

proof fn lemma_put_down(s: SwitcherView)
    requires
        s.wf(),
    ensures
        ({
            let r = s.put_down();
            &&& r.0.wf()
            &&& !r.0.panel.visible
            &&& r.0.pending_show is None
            &&& r.0.preview_origin is None
            &&& last_pause(r.1) == Some(false)
            &&& !fallback_after(s.pending_show is Some, r.1)
            &&& last_switch(r.1) == if s.panel.visible && s.previewing {
                s.preview_origin
            } else {
                None
            }
        }),
{
    let (s1, out1) = s.without_pending_show();
    let (s2, out2) = s1.after(s1.panel.close(false));
    reveal_with_fuel(last_switch, 2);
    reveal_with_fuel(last_pause, 2);
    reveal_with_fuel(last_fallback, 2);
    if out1.len() > 0 {
        assert(out1.drop_last() =~= seq![]);
    }
    if s.panel.visible {
        lemma_after_close(s1);
    } else {
        assert(s1.panel.close(false).1 =~= seq![]);
        lemma_after_window(s1, s1.panel.close(false));
    }
    lemma_last_of_sum(out1, out2);
    lemma_last_of_push(out1 + out2, EffectView::SetPaused(false));
}

proof fn lemma_begin_show(s: SwitcherView)
    requires
        s.wf(),
        !s.panel.visible,
    ensures
        ({
            let r = s.begin_show();
            &&& r.0.wf()
            &&& !r.0.panel.visible
            &&& r.0 == (SwitcherView { pending_show: r.0.pending_show, ..s })
            &&& last_switch(r.1) is None
            &&& paused_after(busy(s), r.1) == busy(r.0)
            &&& fallback_after(s.pending_show is Some, r.1) == r.0.pending_show is Some
        }),
{
    let fx = s.begin_show().1;
    if fx.len() > 0 {
        let a = fx.drop_last();
        let b = a.drop_last();
        let c = b.drop_last();
        assert(c =~= seq![]);
        lemma_last_of_push(c, fx[0]);
        lemma_last_of_push(b, fx[1]);
        lemma_last_of_push(a, fx[2]);
        assert(b =~= c.push(fx[0]));
        assert(a =~= b.push(fx[1]));
        assert(fx =~= a.push(fx[2]));
    }
}

pub(crate) proof fn lemma_step(s: SwitcherView, steps: i32)
    requires
        s.wf(),
    ensures
        ({
            let r = s.step(steps);
            &&& r.0.wf()
            &&& r.0.panel.visible == s.panel.visible
            &&& r.0.preview_origin == s.preview_origin
            &&& r.0.panel.previewed == s.panel.previewed
            &&& last_switch(r.1) is None
            &&& paused_after(busy(s), r.1) == busy(r.0)
            &&& fallback_after(s.pending_show is Some, r.1) == r.0.pending_show is Some
        }),
{
    if s.panel.visible {
        lemma_step_is_quiet(s.panel, steps);
        lemma_after_window(s, s.panel.step(steps));
    } else if s.pending_show is None {
        lemma_begin_show(s);
    }
}

proof fn lemma_complete(s: SwitcherView, output: Seq<char>, now: u64)
    requires
        s.wf(),
    ensures
        ({
            let r = s.complete_pending_show(output, now);
            &&& r.0.wf()
            &&& last_switch(r.1) is None
            &&& last_pause(r.1) is None
            &&& fallback_after(s.pending_show is Some, r.1) == r.0.pending_show is Some
            &&& busy(r.0) == busy(s)
            &&& s.panel.visible ==> r.0 == s
            &&& !s.panel.visible && r.0.panel.visible ==> r.0.panel.previewed
                == r.0.preview_origin
        }),
{
    if s.pending_show is Some && s.pending_show->0.output == output {
        let p = s.pending_show->0;
        let s1 = SwitcherView { pending_show: None, ..s };
        lemma_do_show(s1, p.output, p.steps, now);
        let first = seq![EffectView::CancelFallback];
        reveal_with_fuel(last_switch, 2);
        reveal_with_fuel(last_pause, 2);
        reveal_with_fuel(last_fallback, 2);
        assert(first.drop_last() =~= seq![]);
        lemma_last_of_sum(first, s1.do_show(p.output, p.steps, now).1);
    }
}

/// An effect that neither switches, nor pauses, nor has to do with the fallback
/// timer.
proof fn lemma_lone_effect(fx: EffectView)
    requires
        fx is EnteredLater || fx is RequestCapture || fx is NudgePointer || fx is Shutdown,
    ensures
        last_switch(seq![fx]) is None,
        last_pause(seq![fx]) is None,
        last_fallback(seq![fx]) is None,
{
    reveal_with_fuel(last_switch, 2);
    reveal_with_fuel(last_pause, 2);
    reveal_with_fuel(last_fallback, 2);
    assert(seq![fx].drop_last() =~= seq![]);
}

/// What `lemma_react` shows of every outcome `r` in state `s`, with sway at
/// `at` and the fallback timer `running`, but for a stray click's switch.
spec fn is_in_order(
    s: SwitcherView,
    r: Outcome,
    at: Seq<char>,
    running: bool,
    stray: bool,
) -> bool {
    &&& r.0.wf()
    &&& s.panel.visible ==> tracks(r.0, located(at, r.1))
    &&& paused_after(busy(s), r.1) == busy(r.0)
    &&& fallback_after(running, r.1) == r.0.pending_show is Some
    &&& !s.panel.visible && !stray ==> last_switch(r.1) is None
    &&& !s.panel.visible && r.0.panel.visible ==> r.0.panel.previewed == r.0.preview_origin
}

proof fn lemma_react_to_command(s: SwitcherView, c: Command, at: Seq<char>)
    requires
        s.wf(),
        tracks(s, at),
    ensures
        is_in_order(s, s.on_command(c), at, s.pending_show is Some, false),
{
    match c {
        Command::Toggle => if s.mode is Hold {
            lemma_step(s, 1);
        } else if busy(s) {
            lemma_put_down(s);
        } else {
            lemma_begin_show(s);
        },
        Command::Show => if !s.panel.visible {
            lemma_begin_show(s);
        },
        Command::Hide => lemma_put_down(s),
        Command::Next => lemma_step(s, 1),
        Command::Prev => lemma_step(s, (-1) as i32),
        Command::Quit => lemma_lone_effect(EffectView::Shutdown),
    }
}

proof fn lemma_react_to_capture(
    s: SwitcherView,
    so_far: Outcome,
    reason: CaptureReason,
    output: Seq<char>,
    now: u64,
    at: Seq<char>,
)
    requires
        s.wf(),
        tracks(s, at),
        so_far.0 == (SwitcherView { thumbs: so_far.0.thumbs, ..s }),
        last_switch(so_far.1) is None,
        last_pause(so_far.1) is None,
        last_fallback(so_far.1) is None,
    ensures
        is_in_order(
            s,
            SwitcherView::and_complete(so_far, reason, output, now),
            at,
            s.pending_show is Some,
            false,
        ),
{
    lemma_complete(so_far.0, output, now);
    lemma_last_of_sum(so_far.1, so_far.0.complete_pending_show(output, now).1);
}

proof fn lemma_react_to_msg(s: SwitcherView, m: MsgView, now: u64, at: Seq<char>)
    requires
        s.wf(),
        tracks(s, at),
    ensures
        is_in_order(s, s.handle(m, now), at, s.pending_show is Some, false),
{
    match m {
        MsgView::State(snapshot) => lemma_repaint(SwitcherView { snapshot, ..s }),
        MsgView::WorkspaceSwitched { output, from, to } => lemma_lone_effect(
            EffectView::EnteredLater { output },
        ),
        MsgView::WorkspaceRenamed { from, to } => lemma_repaint(
            SwitcherView { thumbs: crate::switcher::renamed(s.thumbs, from, to), ..s },
        ),
        MsgView::WorkspaceRemoved { name } => lemma_repaint(
            SwitcherView { thumbs: s.thumbs.remove(name), ..s },
        ),
        MsgView::Frame { output, thumb, reason } => {
            lemma_on_frame(s, output, thumb);
            lemma_react_to_capture(s, s.on_frame(output, thumb), reason, output, now, at);
        },
        MsgView::CaptureFailed { output, reason, error } => lemma_react_to_capture(
            s,
            (s, seq![]),
            reason,
            output,
            now,
            at,
        ),
        MsgView::CaptureOutputs(_) => {},
        MsgView::Control(c) => lemma_react_to_command(s, c, at),
        MsgView::IpcLost(_) => lemma_lone_effect(EffectView::Shutdown),
    }
}

/// Everything that can happen keeps the switcher well-formed, sway where the
/// panel says, and captures paused exactly while the panel is up or about to
/// be; and no showing moves sway.
proof fn lemma_react(s: SwitcherView, e: Happening, now: u64, at: Seq<char>)
    requires
        s.wf(),
        tracks(s, at),
    ensures
        is_in_order(
            s,
            react(s, e, now),
            at,
            s.pending_show is Some && !(e is FallbackDue),
            e matches Happening::Gesture(g) && is_stray_click(s.panel, g),
        ),
{
    match e {
        Happening::Msg(m) => lemma_react_to_msg(s, m, now, at),
        Happening::Gesture(g) => lemma_gesture(s, g, now, at, busy(s)),
        Happening::FallbackDue => {
            if s.pending_show is Some {
                let p = s.pending_show->0;
                lemma_do_show(SwitcherView { pending_show: None, ..s }, p.output, p.steps, now);
            }
        },
        Happening::EnteredDue(output) => lemma_lone_effect(
            EffectView::RequestCapture { output, reason: CaptureReason::Entered },
        ),
        Happening::NudgeDue => lemma_lone_effect(EffectView::NudgePointer),
    }
}

// --------------------------------------------------- laws of the switcher --

/// Nothing that can happen to a well-formed switcher changes that it is one.
pub proof fn law_a_switcher_stays_well_formed(s: SwitcherView, e: Happening, now: u64)
    requires
        s.wf(),
    ensures
        react(s, e, now).0.wf(),
{
    lemma_react(s, e, now, s.panel.previewed.unwrap_or(seq![]));
}

/// Captures are paused exactly while the panel is up or a show is on its way:
/// if that holds before anything happens, it holds after it. So the panel is in
/// no background frame, and no cancelled show leaves captures paused.
pub proof fn law_captures_pause_for_the_panel_and_only_for_it(
    s: SwitcherView,
    e: Happening,
    now: u64,
    paused: bool,
)
    requires
        s.wf(),
        paused == busy(s),
    ensures
        paused_after(paused, react(s, e, now).1) == busy(react(s, e, now).0),
{
    lemma_react(s, e, now, s.panel.previewed.unwrap_or(seq![]));
}

/// The fallback timer runs exactly while a show is pending; when it has run
/// out by itself it is not running.
pub proof fn law_the_fallback_timer_runs_while_a_show_is_pending(
    s: SwitcherView,
    e: Happening,
    now: u64,
    running: bool,
)
    requires
        s.wf(),
        running == (s.pending_show is Some && !(e is FallbackDue)),
    ensures
        fallback_after(running, react(s, e, now).1) == react(s, e, now).0.pending_show is Some,
{
    lemma_react(s, e, now, s.panel.previewed.unwrap_or(seq![]));
}

/// Nothing that happens while the panel is down moves sway, the showing of the
/// panel included; and once it is up, the selection is where the user is. A
/// click that still reaches a row is the one exception.
pub proof fn law_showing_moves_nothing(s: SwitcherView, e: Happening, now: u64)
    requires
        s.wf(),
        !s.panel.visible,
        !(e matches Happening::Gesture(g) && is_stray_click(s.panel, g)),
    ensures
        last_switch(react(s, e, now).1) is None,
        react(s, e, now).0.panel.visible ==> react(s, e, now).0.panel.previewed
            == react(s, e, now).0.preview_origin,
{
    lemma_react(s, e, now, seq![]);
}

/// While the panel is up sway is where the panel says: on what is previewed.
pub proof fn law_sway_is_where_the_panel_says(
    s: SwitcherView,
    e: Happening,
    now: u64,
    at: Seq<char>,
)
    requires
        s.wf(),
        s.panel.visible,
        tracks(s, at),
    ensures
        tracks(react(s, e, now).0, located(at, react(s, e, now).1)),
{
    lemma_react(s, e, now, at);
}

/// The ways out of the panel that are no choice.
pub open spec fn closes(s: SwitcherView, e: Happening) -> bool {
    match e {
        Happening::Gesture(GestureView::ClickOutside) => true,
        Happening::Gesture(GestureView::KeyPressed(key)) => key == 0xff1b,
        Happening::Msg(MsgView::Control(Command::Hide)) => true,
        Happening::Msg(MsgView::Control(Command::Toggle)) => s.mode is Toggle,
        _ => false,
    }
}

/// Closing reverts: Esc, a click outside, `hide` and, in toggle mode, `toggle`
/// take the panel down and leave sway where it was when the panel came up.
pub proof fn law_closing_goes_back(
    s: SwitcherView,
    e: Happening,
    now: u64,
    at: Seq<char>,
    origin: Seq<char>,
)
    requires
        s.wf(),
        s.panel.visible,
        tracks(s, at),
        s.preview_origin == Some(origin),
        closes(s, e),
    ensures
        !react(s, e, now).0.panel.visible,
        located(at, react(s, e, now).1) == origin,
{
    match e {
        Happening::Gesture(g) => lemma_after_close(s),
        _ => lemma_put_down(s),
    }
}

/// The keys that choose when they are pressed: Return, and Enter on the keypad
/// or shifted.
pub open spec fn enters(key: u32) -> bool {
    key == 0xff0d || key == 0xff8d || key == 0xfe34
}

/// The keys that choose when they are let go in hold mode: Control, Meta, Alt,
/// Super and Hyper on either side.
pub open spec fn holds(key: u32) -> bool {
    key == 0xffe3 || key == 0xffe4 || 0xffe7 <= key <= 0xffee
}

/// The choice that something makes, if it makes one: Enter, letting go of the
/// modifier in hold mode, or its being up when the window gets the keyboard,
/// choose the selection; a click chooses its row.
pub open spec fn choice(s: SwitcherView, e: Happening) -> Option<Seq<char>> {
    let selected = match s.panel.pending {
        Some(p) => Some(p.name),
        None => s.panel.previewed,
    };
    match e {
        Happening::Gesture(GestureView::KeyPressed(key)) => if enters(key) {
            selected
        } else {
            None
        },
        Happening::Gesture(GestureView::KeyReleased(key)) => if s.mode is Hold
            && holds(key) {
            selected
        } else {
            None
        },
        Happening::Gesture(GestureView::Active { modifier_held }) => if s.mode is Hold
            && !s.panel.activated && !modifier_held {
            selected
        } else {
            None
        },
        Happening::Gesture(GestureView::Click { name, num }) => if s.panel.close_on_select {
            Some(name)
        } else {
            None
        },
        _ => None,
    }
}

/// A choice is final: the panel goes down and sway ends up on what was chosen,
/// wherever a preview had taken it and whatever debounce was running.
pub proof fn law_a_choice_ends_up_where_it_says(
    s: SwitcherView,
    e: Happening,
    now: u64,
    at: Seq<char>,
    chosen: Seq<char>,
)
    requires
        s.wf(),
        s.panel.visible,
        tracks(s, at),
        choice(s, e) == Some(chosen),
    ensures
        !react(s, e, now).0.panel.visible,
        located(at, react(s, e, now).1) == chosen,
{
    let s1 = SwitcherView { panel: PanelView { activated: true, ..s.panel }, ..s };
    match e {
        Happening::Gesture(GestureView::Click { name, num }) => {
            lemma_after_commit(s, Some((name, num)));
        },
        Happening::Gesture(GestureView::Active { modifier_held }) => {
            lemma_after_commit(s1, s1.panel.selected());
            assert(s.after(s1.panel.commit_selection()) == s1.after(s1.panel.commit_selection()));
        },
        _ => {
            lemma_after_commit(s, s.panel.selected());
        },
    }
}

/// With `close_on_select` off a click goes to its row and leaves the panel up;
/// from then on that row is where closing goes.
pub proof fn law_a_click_can_move_the_origin(
    s: SwitcherView,
    name: Seq<char>,
    num: Option<i32>,
    now: u64,
    at: Seq<char>,
)
    requires
        s.wf(),
        s.panel.visible,
        !s.panel.close_on_select,
    ensures
        ({
            let r = react(s, Happening::Gesture(GestureView::Click { name, num }), now);
            &&& r.0.panel.visible
            &&& located(at, r.1) == name
            &&& r.0.preview_origin == Some(name)
            &&& tracks(r.0, name)
        }),
{
    lemma_after_adopting(s, name, num);
}

/// With `close_on_select` off, a click that reaches a row after the panel went
/// down goes there and does nothing else: the panel stays down, and a show
/// brings up the same panel as without the click.
pub proof fn law_a_stray_click_only_switches(
    s: SwitcherView,
    name: Seq<char>,
    num: Option<i32>,
    now: u64,
    at: Seq<char>,
    output: Seq<char>,
    origin: Option<Seq<char>>,
    later: u64,
)
    requires
        s.wf(),
        !s.panel.visible,
        !s.panel.close_on_select,
    ensures
        ({
            let r = react(s, Happening::Gesture(GestureView::Click { name, num }), now);
            &&& r.0 == (SwitcherView { panel: r.0.panel, ..s })
            &&& !r.0.panel.visible
            &&& located(at, r.1) == name
            &&& r.0.panel.show(output, origin, later) == s.panel.show(output, origin, later)
        }),
{
    lemma_after_adopting(s, name, num);
    let (p, out) = s.panel.on_row_clicked(name, num);
    let w = s.panel.cancel_pending().1 + seq![PanelActionView::Restyle];
    let tail = seq![PanelActionView::Switch { name, num }];
    assert(out =~= w + tail);
    lemma_after_tail(s, p, w, tail);
    lemma_heed_one(SwitcherView { panel: p, ..s }, tail[0]);
}

/// In hold mode the toggle binding steps on, as `next` does, and never closes.
pub proof fn law_toggle_is_a_step_in_hold_mode(s: SwitcherView, now: u64)
    requires
        s.wf(),
        s.mode is Hold,
    ensures
        react(s, Happening::Msg(MsgView::Control(Command::Toggle)), now) == react(
            s,
            Happening::Msg(MsgView::Control(Command::Next)),
            now,
        ),
        s.panel.visible ==> react(
            s,
            Happening::Msg(MsgView::Control(Command::Toggle)),
            now,
        ).0.panel.visible,
{
    lemma_step(s, 1);
}

/// Two toggles in toggle mode are nothing: what a show had begun is taken back.
pub proof fn law_toggling_twice_is_nothing(s: SwitcherView, now: u64, later: u64)
    requires
        s.wf(),
        s.mode is Toggle,
        !busy(s),
    ensures
        ({
            let toggle = Happening::Msg(MsgView::Control(Command::Toggle));
            let (s1, out1) = react(s, toggle, now);
            react(s1, toggle, later).0 == s
        }),
{
    let toggle = Happening::Msg(MsgView::Control(Command::Toggle));
    let s1 = react(s, toggle, now).0;
    if s.snapshot.focused_output.len() > 0 {
        let s2 = s1.without_pending_show().0;
        assert(s2.panel.close(false).1 =~= seq![]);
        lemma_after_window(s2, s2.panel.close(false));
        assert(s.shown_on is None);
    }
}

/// Steps asked for while a show was pending are not lost: the panel comes up
/// with the selection that many rows from where the user is, going round the
/// ends. So a quick tap in hold mode lands on the next workspace.
pub proof fn law_queued_steps_count_from_the_origin(
    s: SwitcherView,
    output: Seq<char>,
    steps: i32,
    now: u64,
)
    requires
        s.wf(),
        s.pending_show == Some(crate::switcher::PendingShowView { output, steps }),
        distinct_names(PanelView { rendered: s.snapshot.on_output(output), ..s.panel }),
        s.snapshot.on_output(output).len() > 0,
    ensures
        ({
            let rows = s.snapshot.on_output(output);
            let start = match s.origin_on(output) {
                Some(name) => match crate::lists::position(rows, crate::panel::row_named(name)) {
                    Some(i) => i,
                    None => 0,
                },
                None => 0,
            };
            let r = react(s, Happening::FallbackDue, now).0;
            &&& r.panel.rendered == rows
            &&& r.panel.base() == crate::selection::wrapped(
                start,
                steps as int,
                rows.len() as int,
            )
        }),
{
    let s0 = SwitcherView { pending_show: None, ..s };
    let rows = s.snapshot.on_output(output);
    let origin = s0.origin_on(output);
    let t1 = s0.panel.update(s0.snapshot, output);
    lemma_update_is_quiet(s0.panel, s0.snapshot, output);
    lemma_after_window(s0, t1);
    let s1 = s0.after(t1).0;
    let t2 = s1.panel.show(output, origin, now);
    lemma_after_window(s1, t2);
    let s2 = s1.after(t2).0;
    let s3 = SwitcherView {
        shown_on: Some(output),
        preview_origin: origin,
        previewing: false,
        ..s2
    };
    lemma_step_is_quiet(s3.panel, steps);
    lemma_after_window(s3, s3.panel.step(steps));
    law_steps_count_from_the_selection(s3.panel, steps, now);
    if origin is Some {
        crate::lists::lemma_position(rows, crate::panel::row_named(origin->0));
    }
    if steps == 0 {
        vstd::arithmetic::div_mod::lemma_small_mod(s3.panel.base() as nat, rows.len());
    }
}

/// A rename carries the picture over: it is found under the new name, whatever
/// was there before is gone, nothing is left under the old name, and no other
/// picture is touched.
pub proof fn law_a_rename_moves_the_thumbnail(
    thumbs: Map<Seq<char>, crate::model::ThumbnailView>,
    from: Seq<char>,
    to: Seq<char>,
    other: Seq<char>,
)
    requires
        from != to,
        other != from,
        other != to,
    ensures
        ({
            let r = crate::switcher::renamed(thumbs, from, to);
            &&& r.dom().contains(to) <==> thumbs.dom().contains(from)
            &&& thumbs.dom().contains(from) ==> r[to] == thumbs[from]
            &&& !r.dom().contains(from)
            &&& r.dom().contains(other) <==> thumbs.dom().contains(other)
            &&& thumbs.dom().contains(other) ==> r[other] == thumbs[other]
        }),
{
}

/// Once a workspace is gone, so is its picture: a later one of the same name
/// starts blank.
pub proof fn law_a_removed_workspace_leaves_no_thumbnail(
    s: SwitcherView,
    name: Seq<char>,
    now: u64,
)
    requires
        s.wf(),
    ensures
        !react(
            s,
            Happening::Msg(MsgView::WorkspaceRemoved { name }),
            now,
        ).0.thumbs.dom().contains(name),
{
    lemma_repaint(SwitcherView { thumbs: s.thumbs.remove(name), ..s });
}

/// A removal touches no other picture: whatever else the cache held, it holds
/// still, and nothing is added.
pub proof fn law_a_removal_touches_no_other_picture(
    s: SwitcherView,
    name: Seq<char>,
    other: Seq<char>,
    now: u64,
)
    requires
        s.wf(),
        other != name,
    ensures
        ({
            let r = react(s, Happening::Msg(MsgView::WorkspaceRemoved { name }), now).0;
            &&& r.thumbs.dom().contains(other) <==> s.thumbs.dom().contains(other)
            &&& s.thumbs.dom().contains(other) ==> r.thumbs[other] == s.thumbs[other]
        }),
{
    lemma_repaint(SwitcherView { thumbs: s.thumbs.remove(name), ..s });
}

/// A frame that lands after a switch is never filed under the workspace that
/// was left: it goes to the one that was entered.
pub proof fn law_a_frame_after_a_switch_is_of_the_workspace_entered(
    s: SwitcherView,
    output: Seq<char>,
    from: Option<Seq<char>>,
    to: Seq<char>,
    thumb: crate::model::ThumbnailView,
    now: u64,
    k: int,
)
    requires
        s.wf(),
        0 <= k < s.snapshot.workspaces.len(),
        s.snapshot.workspaces[k].output == output,
        s.snapshot.workspaces[k].name == to,
    ensures
        ({
            let s1 = react(
                s,
                Happening::Msg(MsgView::WorkspaceSwitched { output, from, to }),
                now,
            ).0;
            let reason = crate::model::CaptureReason::Background;
            let s2 = react(s1, Happening::Msg(MsgView::Frame { output, thumb, reason }), now).0;
            s2.thumbs == s.thumbs.insert(to, thumb)
        }),
{
    let shown = crate::switcher::shown_next(s.snapshot.workspaces, output, to);
    let p = crate::model::is_visible_on(output);
    crate::lists::lemma_position(shown, p);
    assert(p(shown[k]));
    let s1 = SwitcherView {
        snapshot: crate::model::SnapshotView { workspaces: shown, ..s.snapshot },
        ..s
    };
    lemma_on_frame(s1, output, thumb);
    let w = s1.snapshot.visible_on(output)->Some_0;
    assert(w.name == to);
    if s.panel.visible {
        let s2 = SwitcherView { thumbs: s.thumbs.insert(to, thumb), ..s1 };
        lemma_thumbs_are_window_work(s.panel.rendered, to);
        lemma_heed_window(s2, crate::panel::thumbs_for(s.panel.rendered, to));
    }
}

// ------------------------------------------------------- laws of the panel --

/// The rows carry names of their own.
pub open spec fn distinct_names(p: PanelView) -> bool {
    forall|i: int, j: int|
        0 <= i < j < p.rendered.len() ==> #[trigger] p.rendered[i].name
            != #[trigger] p.rendered[j].name
}

/// Nothing previews itself. A panel that is down does nothing at all but switch
/// on a stray click; within the grace period the pointer and the wheel do
/// nothing; until the pointer has moved an enter does nothing; and the first
/// motion only arms hovering.
pub proof fn law_nothing_previews_itself(
    p: PanelView,
    g: GestureView,
    name: Seq<char>,
    num: Option<i32>,
    steps: i32,
    now: u64,
)
    requires
        p.wf(),
    ensures
        !p.visible && !is_stray_click(p, g) ==> p.gesture(g, now) == (
            p,
            Seq::<PanelActionView>::empty(),
        ),
        p.in_grace(now) ==> {
            &&& p.on_hover_motion(name, num, now) == (p, Seq::<PanelActionView>::empty())
            &&& p.on_scroll(steps, now) == (p, Seq::<PanelActionView>::empty())
        },
        !p.hover_armed ==> p.on_hover_enter(name, num) == (p, Seq::<PanelActionView>::empty()),
        !p.pointer_moved ==> p.on_hover_motion(name, num, now).0.pending == p.pending,
{
}

/// A fresh showing starts disarmed, with nothing pending, so that by the law
/// above nothing is previewed before the pointer has moved twice.
pub proof fn law_a_showing_starts_disarmed(
    p: PanelView,
    output: Seq<char>,
    origin: Option<Seq<char>>,
    now: u64,
    later: u64,
)
    requires
        p.wf(),
    ensures
        ({
            let shown = p.show(output, origin, now).0;
            &&& shown.wf()
            &&& !shown.hover_armed
            &&& !shown.pointer_moved
            &&& shown.pending is None
            &&& shown.in_grace(later) <==> later < now + crate::panel::PREVIEW_GRACE
        }),
{
}

proof fn lemma_what_a_commit_asks_for(p: PanelView, target: Option<(Seq<char>, Option<i32>)>)
    requires
        p.wf(),
    ensures
        forall|i: int| 0 <= i < p.commit(target).1.len() ==> !(#[trigger] p.commit(target).1[i] is Preview),
        p.visible ==> exists|i: int|
            0 <= i < p.commit(target).1.len() && #[trigger] p.commit(target).1[i] is Hidden,
        !p.visible ==> p.commit(target).1.len() == 0,
{
    if p.visible {
        let n = p.cancel_pending().1.len() as int;
        assert(p.close(true).1[n + 2] is Hidden);
        assert(p.commit(target).1[n + 2] is Hidden);
    }
}

proof fn lemma_what_closing_asks_for(p: PanelView, committed: bool)
    requires
        p.wf(),
    ensures
        forall|i: int|
            0 <= i < p.close(committed).1.len() ==> !(#[trigger] p.close(committed).1[i] is Preview),
        p.visible ==> exists|i: int|
            0 <= i < p.close(committed).1.len() && #[trigger] p.close(committed).1[i] is Hidden,
        !p.visible ==> p.close(committed).1.len() == 0,
{
    if p.visible {
        let n = p.cancel_pending().1.len() as int;
        assert(p.close(committed).1[n + 2] is Hidden);
    }
}

/// What a gesture other than the debounce running out asks for.
proof fn lemma_what_gestures_ask_for(p: PanelView, g: GestureView, now: u64)
    requires
        p.wf(),
    ensures
        ({
            let t = p.gesture(g, now);
            &&& !(g is DebounceElapsed) ==> forall|i: int|
                0 <= i < t.1.len() ==> !(#[trigger] t.1[i] is Preview)
            &&& p.visible && !t.0.visible ==> exists|i: int|
                0 <= i < t.1.len() && #[trigger] t.1[i] is Hidden
            &&& !(p.visible && !t.0.visible) ==> forall|i: int|
                0 <= i < t.1.len() ==> !(#[trigger] t.1[i] is Hidden)
        }),
{
    let q = PanelView { activated: true, ..p };
    match g {
        GestureView::Click { name, num } => lemma_what_a_commit_asks_for(p, Some((name, num))),
        GestureView::ClickOutside => lemma_what_closing_asks_for(p, false),
        GestureView::KeyPressed(key) => {
            lemma_what_closing_asks_for(p, false);
            lemma_what_a_commit_asks_for(p, p.selected());
        },
        GestureView::KeyReleased(key) => lemma_what_a_commit_asks_for(p, p.selected()),
        GestureView::Active { modifier_held } => lemma_what_a_commit_asks_for(q, q.selected()),
        GestureView::DebounceElapsed => {},
        _ => lemma_quiet_gestures(p, g, now),
    }
}

/// Only the debounce running out asks for a preview, and for one at most: any
/// number of steps within it are one switch.
pub proof fn law_only_the_debounce_previews(p: PanelView, g: GestureView, now: u64, i: int, j: int)
    requires
        p.wf(),
        0 <= i < p.gesture(g, now).1.len(),
        0 <= j < p.gesture(g, now).1.len(),
        p.gesture(g, now).1[i] is Preview,
    ensures
        g is DebounceElapsed,
        p.gesture(g, now).1[j] is Preview ==> i == j,
{
    lemma_what_gestures_ask_for(p, g, now);
}

/// Hiding is reported exactly when the panel goes down.
pub proof fn law_hiding_is_reported_once(p: PanelView, g: GestureView, now: u64)
    requires
        p.wf(),
    ensures
        (exists|i: int|
            0 <= i < p.gesture(g, now).1.len() && #[trigger] p.gesture(g, now).1[i] is Hidden) <==> (
        p.visible && !p.gesture(g, now).0.visible),
{
    lemma_what_gestures_ask_for(p, g, now);
}

/// The debounce timer after these actions, if they only start one that is not
/// running and only stop one that is.
pub open spec fn debounce_after(running: bool, actions: Seq<PanelActionView>) -> Option<bool>
    decreases actions.len(),
{
    if actions.len() == 0 {
        Some(running)
    } else {
        match (debounce_after(running, actions.drop_last()), actions.last()) {
            (Some(false), PanelActionView::StartDebounce) => Some(true),
            (Some(true), PanelActionView::StopDebounce) => Some(false),
            (_, PanelActionView::StartDebounce) => None,
            (_, PanelActionView::StopDebounce) => None,
            (r, _) => r,
        }
    }
}

proof fn lemma_debounce_after_push(running: bool, actions: Seq<PanelActionView>, a: PanelActionView)
    ensures
        debounce_after(running, actions.push(a)) == match (debounce_after(running, actions), a) {
            (Some(false), PanelActionView::StartDebounce) => Some(true),
            (Some(true), PanelActionView::StopDebounce) => Some(false),
            (_, PanelActionView::StartDebounce) => None,
            (_, PanelActionView::StopDebounce) => None,
            (r, _) => r,
        },
{
    assert(actions.push(a).drop_last() =~= actions);
}

proof fn lemma_cancelling_stops_the_debounce(p: PanelView)
    ensures
        debounce_after(p.pending is Some, p.cancel_pending().1) == Some(false),
{
    lemma_debounce_after_push(p.pending is Some, seq![], PanelActionView::StopDebounce);
    assert(seq![PanelActionView::StopDebounce] =~= Seq::<PanelActionView>::empty().push(
        PanelActionView::StopDebounce,
    ));
}

proof fn lemma_arming_starts_the_debounce(
    p: PanelView,
    name: Seq<char>,
    num: Option<i32>,
    source: crate::panel::PreviewSource,
)
    ensures
        debounce_after(p.pending is Some, p.arm_preview(name, num, source).1) == Some(true),
{
    lemma_cancelling_stops_the_debounce(p);
    lemma_debounce_after_push(
        p.pending is Some,
        p.cancel_pending().1,
        PanelActionView::StartDebounce,
    );
}

proof fn lemma_selecting_runs_the_debounce(p: PanelView, target: int)
    ensures
        debounce_after(p.pending is Some, p.select(target).1) == Some(
            p.select(target).0.pending is Some,
        ),
{
    if target != p.base() {
        let row = p.rendered[target];
        let q = PanelView { hover_armed: false, ..p };
        let source = crate::panel::PreviewSource::Wheel;
        let out = q.arm_preview(row.name, row.num, source).1;
        lemma_arming_starts_the_debounce(q, row.name, row.num, source);
        lemma_debounce_after_push(p.pending is Some, out, p.select(target).1.last());
        assert(p.select(target).1 =~= out.push(p.select(target).1.last()));
    }
}

proof fn lemma_hovering_runs_the_debounce(p: PanelView, name: Seq<char>, num: Option<i32>)
    ensures
        debounce_after(p.pending is Some, p.arm_hover(name, num).1) == Some(
            p.arm_hover(name, num).0.pending is Some,
        ),
{
    lemma_cancelling_stops_the_debounce(p);
    lemma_arming_starts_the_debounce(p, name, num, crate::panel::PreviewSource::Hover);
}

proof fn lemma_closing_stops_the_debounce(p: PanelView, committed: bool)
    requires
        p.wf(),
    ensures
        debounce_after(p.pending is Some, p.close(committed).1) == Some(false),
{
    if p.visible {
        lemma_cancelling_stops_the_debounce(p);
        let a = p.cancel_pending().1;
        let b = a.push(PanelActionView::Restyle);
        let c = b.push(PanelActionView::Withdraw);
        let d = c.push(PanelActionView::Hidden { committed });
        lemma_debounce_after_push(p.pending is Some, a, PanelActionView::Restyle);
        lemma_debounce_after_push(p.pending is Some, b, PanelActionView::Withdraw);
        lemma_debounce_after_push(p.pending is Some, c, PanelActionView::Hidden { committed });
        assert(p.close(committed).1 =~= d);
    }
}

proof fn lemma_committing_stops_the_debounce(
    p: PanelView,
    target: Option<(Seq<char>, Option<i32>)>,
)
    requires
        p.wf(),
    ensures
        debounce_after(p.pending is Some, p.commit(target).1) == Some(false),
{
    lemma_closing_stops_the_debounce(p, true);
    if let Some((name, num)) = target {
        lemma_debounce_after_push(
            p.pending is Some,
            p.close(true).1,
            PanelActionView::Switch { name, num },
        );
    }
}

/// The debounce timer runs exactly while a preview is pending, and is neither
/// started twice nor stopped when it does not run; when it has run out by
/// itself it is not running.
pub proof fn law_the_debounce_timer_runs_while_a_preview_is_pending(
    p: PanelView,
    g: GestureView,
    now: u64,
    running: bool,
)
    requires
        p.wf(),
        running == (p.pending is Some && !(g is DebounceElapsed)),
    ensures
        debounce_after(running, p.gesture(g, now).1) == Some(
            p.gesture(g, now).0.pending is Some,
        ),
{
    match g {
        GestureView::Motion { name, num } => {
            let q = PanelView { hover_armed: true, pointer_moved: true, ..p };
            lemma_hovering_runs_the_debounce(q, name, num);
        },
        GestureView::Enter { name, num } => lemma_hovering_runs_the_debounce(p, name, num),
        GestureView::Leave => lemma_cancelling_stops_the_debounce(p),
        GestureView::Wheel { steps } => lemma_selecting_runs_the_debounce(
            p,
            crate::selection::clamped(p.base(), steps as int, p.rendered.len() as int),
        ),
        GestureView::Click { name, num } => {
            lemma_committing_stops_the_debounce(p, Some((name, num)));
            lemma_cancelling_stops_the_debounce(p);
            let a = p.cancel_pending().1;
            let b = a.push(PanelActionView::Restyle);
            lemma_debounce_after_push(p.pending is Some, a, PanelActionView::Restyle);
            lemma_debounce_after_push(
                p.pending is Some,
                b,
                PanelActionView::Switch { name, num },
            );
        },
        GestureView::ClickOutside => lemma_closing_stops_the_debounce(p, false),
        GestureView::KeyPressed(key) => {
            lemma_closing_stops_the_debounce(p, false);
            lemma_committing_stops_the_debounce(p, p.selected());
        },
        GestureView::KeyReleased(key) => lemma_committing_stops_the_debounce(p, p.selected()),
        GestureView::Active { modifier_held } => {
            let q = PanelView { activated: true, ..p };
            lemma_committing_stops_the_debounce(q, q.selected());
        },
        GestureView::DebounceElapsed => {
            if let Some(pending) = p.pending {
                let a = Seq::<PanelActionView>::empty().push(PanelActionView::Restyle);
                let preview = PanelActionView::Preview { name: pending.name, num: pending.num };
                lemma_debounce_after_push(false, seq![], PanelActionView::Restyle);
                lemma_debounce_after_push(false, a, preview);
                assert(p.debounce_elapsed().1 =~= a.push(preview));
            }
        },
    }
}

/// A step of the wheel moves the selection that many rows from whatever acted
/// last, hover, wheel or key, clamped; an explicit step does so round the ends.
/// So four quick steps land four rows away.
pub proof fn law_steps_count_from_the_selection(p: PanelView, steps: i32, now: u64)
    requires
        p.wf(),
        distinct_names(p),
        p.rendered.len() > 0,
    ensures
        p.listens_to_the_wheel(now) ==> p.on_scroll(steps, now).0.base() == (if steps == 0 {
            p.base()
        } else {
            crate::selection::clamped(p.base(), steps as int, p.rendered.len() as int)
        }),
        p.visible ==> p.step(steps).0.base() == crate::selection::wrapped(
            p.base(),
            steps as int,
            p.rendered.len() as int,
        ),
{
    let len = p.rendered.len() as int;
    crate::selection::law_steps_land_on_a_row(p.base(), steps as int, len);
    lemma_selecting_moves_the_selection(
        p,
        crate::selection::clamped(p.base(), steps as int, len),
    );
    lemma_selecting_moves_the_selection(
        p,
        crate::selection::wrapped(p.base(), steps as int, len),
    );
}

proof fn lemma_selecting_moves_the_selection(p: PanelView, target: int)
    requires
        distinct_names(p),
        0 <= target < p.rendered.len(),
    ensures
        p.select(target).0.base() == target,
{
    if target != p.base() {
        let name = p.rendered[target].name;
        crate::lists::lemma_position_is(p.rendered, crate::panel::row_named(name), target);
    }
}

/// Leaving a row is not closing: it keeps what is shown, and cancels a preview
/// only if the pointer started it.
pub proof fn law_leaving_a_row_only_cancels_a_hover(p: PanelView, now: u64)
    requires
        p.wf(),
    ensures
        ({
            let q = p.gesture(GestureView::Leave, now).0;
            &&& q == (PanelView { pending: q.pending, ..p })
            &&& q.pending == if p.hover_pending() {
                None
            } else {
                p.pending
            }
        }),
{
}

/// Rows are frozen while the panel is up: a change of flags and titles makes no
/// new rows and leaves the selection, the pending preview and hovering alone.
pub proof fn law_rows_are_frozen_while_the_panel_is_up(
    p: PanelView,
    snapshot: crate::model::SnapshotView,
    output: Seq<char>,
    i: int,
)
    requires
        p.wf(),
        p.visible,
        crate::model::same_rows(p.rendered, snapshot.on_output(output)),
    ensures
        ({
            let t = p.update(snapshot, output);
            &&& t.0 == (PanelView { rendered: snapshot.on_output(output), ..p })
            &&& 0 <= i < t.1.len() ==> !(t.1[i] is Rebuild || t.1[i] is StopDebounce)
        }),
{
}

/// The focused marker is on the origin row and on no other while the panel is
/// up, and the origin is never marked as previewed: what sway thinks is focused
/// does not matter.
pub proof fn law_the_marker_stays_on_the_origin(
    p: PanelView,
    w: crate::model::WorkspaceView,
    origin: Seq<char>,
)
    requires
        p.wf(),
        p.origin == Some(origin),
    ensures
        p.is_marked_focused(w) <==> w.name == origin,
        p.is_marked_focused(w) ==> !p.is_marked_previewing(w),
        p.is_marked_previewing(w) <==> p.previewed == Some(w.name) && w.name != origin,
{
}

} // verus!
