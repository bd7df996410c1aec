//! What each message, gesture and timer does to the switcher, told by its state
//! before and after and by what is asked for outside.

use crate::config::Config;
use crate::model::{CaptureReason, Command, MsgView, SnapshotView, ThumbnailView, WorkspaceView};
use crate::panel::{GestureView, PanelActionView, PanelView};
use crate::promises::Happening;
use crate::switcher::{EffectView, PendingShowView, SwitcherView};
use vstd::prelude::*;

verus! {

/// The workspaces sway is asked for, in order, with their numbers.
pub open spec fn switches_in(fx: Seq<EffectView>) -> Seq<(Seq<char>, Option<i32>)>
    decreases fx.len(),
{
    if fx.len() == 0 {
        seq![]
    } else {
        match fx.last() {
            EffectView::SwitchTo { name, num } => switches_in(fx.drop_last()).push((name, num)),
            _ => switches_in(fx.drop_last()),
        }
    }
}

proof fn lemma_switches_sum(a: Seq<EffectView>, b: Seq<EffectView>)
    ensures
        switches_in(a + b) == switches_in(a) + switches_in(b),
    decreases b.len(),
{
    if b.len() == 0 {
        assert(a + b =~= a);
        assert(switches_in(a) + switches_in(b) =~= switches_in(a));
    } else {
        assert((a + b).drop_last() =~= a + b.drop_last());
        lemma_switches_sum(a, b.drop_last());
        assert(switches_in(a + b) =~= switches_in(a) + switches_in(b));
    }
}

proof fn lemma_no_switches(fx: Seq<EffectView>)
    requires
        forall|i: int| 0 <= i < fx.len() ==> !(#[trigger] fx[i] is SwitchTo),
    ensures
        switches_in(fx) =~= seq![],
    decreases fx.len(),
{
    if fx.len() > 0 {
        assert(!(fx[fx.len() - 1] is SwitchTo));
        assert forall|i: int| 0 <= i < fx.drop_last().len() implies !(
        #[trigger] fx.drop_last()[i] is SwitchTo) by {
            assert(fx.drop_last()[i] == fx[i]);
        }
        lemma_no_switches(fx.drop_last());
    }
}

proof fn lemma_one_switch(e: EffectView)
    ensures
        switches_in(seq![e]) =~= match e {
            EffectView::SwitchTo { name, num } => seq![(name, num)],
            _ => seq![],
        },
{
    reveal_with_fuel(switches_in, 2);
    assert(seq![e].drop_last() =~= seq![]);
}

/// What a turn comes to whose window actions come first.
proof fn lemma_turn(
    s: SwitcherView,
    p: PanelView,
    w: Seq<PanelActionView>,
    tail: Seq<PanelActionView>,
)
    requires
        crate::promises::all_window(w),
    ensures
        ({
            let own = SwitcherView { panel: p, ..s }.heed_all(tail);
            let all = s.after((p, w + tail));
            &&& all.0 == own.0
            &&& all.1 == w.map_values(|a: PanelActionView| EffectView::Window(a)) + own.1
            &&& switches_in(all.1) == switches_in(own.1)
        }),
{
    let s1 = SwitcherView { panel: p, ..s };
    let own = s1.heed_all(tail);
    crate::promises::lemma_heed_sum(s1, w, tail);
    crate::promises::lemma_heed_window(s1, w);
    let first = w.map_values(|a: PanelActionView| EffectView::Window(a));
    assert(s1.heed_all(w).1 =~= first);
    lemma_switches_sum(first, own.1);
    lemma_no_switches(first);
    assert(switches_in(first + own.1) =~= switches_in(own.1));
}

proof fn lemma_window_turn(s: SwitcherView, t: (PanelView, Seq<PanelActionView>))
    requires
        crate::promises::all_window(t.1),
    ensures
        s.after(t).0 == (SwitcherView { panel: t.0, ..s }),
        s.after(t).1 == t.1.map_values(|a: PanelActionView| EffectView::Window(a)),
        switches_in(s.after(t).1) =~= seq![],
{
    let none: Seq<PanelActionView> = seq![];
    assert(t.1 + none =~= t.1);
    lemma_turn(s, t.0, t.1, none);
    let all = t.1.map_values(|a: PanelActionView| EffectView::Window(a));
    assert(all + Seq::<EffectView>::empty() =~= all);
}

proof fn lemma_panel_is_kept(s: SwitcherView, actions: Seq<PanelActionView>)
    ensures
        ({
            let r = s.heed_all(actions).0;
            &&& r.panel == s.panel
            &&& r.snapshot == s.snapshot
            &&& r.thumbs == s.thumbs
            &&& r.mode == s.mode
            &&& r.hold_selects_next == s.hold_selects_next
        }),
    decreases actions.len(),
{
    if actions.len() > 0 {
        lemma_panel_is_kept(s, actions.drop_last());
    }
}

// ---------------------------------------------------------------- gestures --

/// A gesture does to the panel what it does to the panel alone, touches neither
/// the snapshot nor any picture, and whatever the panel wants of the window is
/// done.
pub proof fn law_gestures_go_to_the_panel(s: SwitcherView, g: GestureView, now: u64, i: int)
    ensures
        ({
            let (q, out) = s.panel.gesture(g, now);
            let r = crate::promises::react(s, Happening::Gesture(g), now);
            &&& r.0.panel == q
            &&& r.0.snapshot == s.snapshot
            &&& r.0.thumbs == s.thumbs
            &&& r.0.mode == s.mode
            &&& r.0.hold_selects_next == s.hold_selects_next
            &&& 0 <= i < out.len() && !(out[i] is Switch || out[i] is Preview || out[i] is Hidden)
                ==> r.1.contains(EffectView::Window(out[i]))
        }),
{
    let (q, out) = s.panel.gesture(g, now);
    let s1 = SwitcherView { panel: q, ..s };
    lemma_panel_is_kept(s1, out);
    if 0 <= i < out.len() && crate::promises::is_window(out[i]) {
        lemma_window_work_is_done(s1, out, i);
    }
}

proof fn lemma_window_work_is_done(s: SwitcherView, actions: Seq<PanelActionView>, i: int)
    requires
        0 <= i < actions.len(),
        crate::promises::is_window(actions[i]),
    ensures
        s.heed_all(actions).1.contains(EffectView::Window(actions[i])),
    decreases actions.len(),
{
    let init = actions.drop_last();
    let (s1, out1) = s.heed_all(init);
    let (s2, out2) = s1.heed(actions.last());
    let all = out1 + out2;
    let e = EffectView::Window(actions[i]);
    if i < init.len() {
        lemma_window_work_is_done(s, init, i);
        assert(all[out1.index_of(e)] == e);
    } else {
        assert(all[out1.len() as int] == e);
    }
}

/// A gesture that wants nothing but window work changes the panel alone, and
/// that work, in its order, is all there is to do.
pub proof fn law_window_work_is_passed_on(s: SwitcherView, g: GestureView, now: u64)
    requires
        forall|i: int|
            0 <= i < s.panel.gesture(g, now).1.len() ==> !(#[trigger] s.panel.gesture(
                g,
                now,
            ).1[i] is Switch || s.panel.gesture(g, now).1[i] is Preview || s.panel.gesture(
                g,
                now,
            ).1[i] is Hidden),
    ensures
        ({
            let (q, out) = s.panel.gesture(g, now);
            let r = crate::promises::react(s, Happening::Gesture(g), now);
            &&& r.0 == (SwitcherView { panel: q, ..s })
            &&& r.1 == out.map_values(|a: PanelActionView| EffectView::Window(a))
        }),
{
    lemma_window_turn(s, s.panel.gesture(g, now));
}

/// A choice asks sway for one workspace, once: the one that is pending, by its
/// number, else the one that is previewed; for none if that is the origin and
/// nothing is pending. The captures go on.
pub proof fn law_a_choice_asks_for_one_workspace(s: SwitcherView, g: GestureView, now: u64)
    requires
        s.wf(),
        s.panel.visible,
        crate::panel_steps::chooses(s.panel, g),
    ensures
        ({
            let r = crate::promises::react(s, Happening::Gesture(g), now);
            let asked = switches_in(r.1);
            &&& r.0.shown_on is None && r.0.preview_origin is None && !r.0.previewing
            &&& r.1.contains(EffectView::SetPaused(false))
            &&& s.panel.pending matches Some(wanted) ==> asked == seq![
                (wanted.name, wanted.num),
            ]
            &&& s.panel.pending is None && s.panel.previewed == s.panel.origin ==> asked.len()
                == 0
            &&& s.panel.pending is None && s.panel.previewed != s.panel.origin ==> asked.len()
                == 1 && s.panel.previewed == Some(asked[0].0)
        }),
{
    let (q, out) = s.panel.gesture(g, now);
    crate::panel_steps::law_a_choice_is_what_is_pending_else_previewed(s.panel, g, now, 0);
    let n = out.len();
    let s1 = SwitcherView { panel: q, ..s };
    let hidden = PanelActionView::Hidden { committed: true };
    if out.last() is Switch {
        let w = out.subrange(0, n - 2);
        let tail = out.subrange(n - 2, n as int);
        assert(out =~= w + tail);
        assert forall|i: int| 0 <= i < w.len() implies crate::promises::is_window(
            #[trigger] w[i],
        ) by {
            assert(w[i] == out[i]);
        }
        lemma_turn(s, q, w, tail);
        assert(tail =~= seq![hidden] + seq![out.last()]);
        crate::promises::lemma_heed_sum(s1, seq![hidden], seq![out.last()]);
        crate::promises::lemma_heed_one(s1, hidden);
        let s2 = s1.heed(hidden).0;
        crate::promises::lemma_heed_one(s2, out.last());
        let first = s1.heed(hidden).1;
        let second = s2.heed(out.last()).1;
        assert(first =~= seq![EffectView::SetPaused(false)]);
        lemma_switches_sum(first, second);
        lemma_one_switch(first[0]);
        lemma_one_switch(second[0]);
        assert(second =~= seq![second[0]]);
        let all = s.after((q, out)).1;
        assert(all[n - 2] == first[0]);
    } else {
        let w = out.subrange(0, n - 1);
        let tail = out.subrange(n - 1, n as int);
        assert(out =~= w + tail);
        assert forall|i: int| 0 <= i < w.len() implies crate::promises::is_window(
            #[trigger] w[i],
        ) by {
            assert(w[i] == out[i]);
            assert(i < n - 2 || out[i] is Withdraw);
        }
        lemma_turn(s, q, w, tail);
        assert(tail =~= seq![hidden]);
        crate::promises::lemma_heed_one(s1, hidden);
        let first = s1.heed(hidden).1;
        assert(first =~= seq![EffectView::SetPaused(false)]);
        lemma_one_switch(first[0]);
        assert(s.after((q, out)).1[n - 1] == first[0]);
    }
}

/// A click that closes asks sway for its row, by the number clicked, unless that
/// was the origin all along; one that does not close always asks.
pub proof fn law_a_click_asks_for_its_row(
    s: SwitcherView,
    name: Seq<char>,
    num: Option<i32>,
    now: u64,
)
    requires
        s.wf(),
        s.panel.visible,
    ensures
        ({
            let r = crate::promises::react(
                s,
                Happening::Gesture(GestureView::Click { name, num }),
                now,
            );
            let home = s.panel.pending is None && s.panel.previewed == Some(name)
                && s.panel.origin == Some(name);
            &&& s.panel.close_on_select && home ==> switches_in(r.1).len() == 0
            &&& !(s.panel.close_on_select && home) ==> switches_in(r.1) == seq![(name, num)]
            &&& !s.panel.close_on_select ==> r.0 == (SwitcherView {
                panel: r.0.panel,
                preview_origin: Some(name),
                previewing: false,
                ..s
            })
        }),
{
    let (q, out) = s.panel.on_row_clicked(name, num);
    let s1 = SwitcherView { panel: q, ..s };
    let switch = PanelActionView::Switch { name, num };
    let hidden = PanelActionView::Hidden { committed: true };
    let stop = s.panel.cancel_pending().1;
    if !s.panel.close_on_select {
        let w = stop + seq![PanelActionView::Restyle];
        assert(out =~= w + seq![switch]);
        lemma_turn(s, q, w, seq![switch]);
        crate::promises::lemma_heed_one(s1, switch);
        lemma_one_switch(s1.heed(switch).1[0]);
        assert(s1.heed(switch).1 =~= seq![s1.heed(switch).1[0]]);
    } else {
        let w = stop + seq![PanelActionView::Restyle, PanelActionView::Withdraw];
        let first = s1.heed(hidden).1;
        assert(first =~= seq![EffectView::SetPaused(false)]);
        lemma_one_switch(first[0]);
        crate::promises::lemma_heed_one(s1, hidden);
        if out.last() is Hidden {
            assert(out =~= w + seq![hidden]);
            lemma_turn(s, q, w, seq![hidden]);
        } else {
            assert(out =~= w + seq![hidden, switch]);
            lemma_turn(s, q, w, seq![hidden, switch]);
            assert(seq![hidden, switch] =~= seq![hidden] + seq![switch]);
            crate::promises::lemma_heed_sum(s1, seq![hidden], seq![switch]);
            let s2 = s1.heed(hidden).0;
            crate::promises::lemma_heed_one(s2, switch);
            let second = s2.heed(switch).1;
            lemma_switches_sum(first, second);
            lemma_one_switch(second[0]);
            assert(second =~= seq![second[0]]);
        }
    }
}

/// With clicks that do not close, one that reaches a row while the panel is down
/// asks sway for that row, by the number clicked, and for nothing else.
pub proof fn law_a_stray_click_asks_for_its_row(
    s: SwitcherView,
    name: Seq<char>,
    num: Option<i32>,
    now: u64,
)
    requires
        s.wf(),
        !s.panel.visible,
    ensures
        ({
            let r = crate::promises::react(
                s,
                Happening::Gesture(GestureView::Click { name, num }),
                now,
            );
            &&& !s.panel.close_on_select ==> switches_in(r.1) == seq![(name, num)]
            &&& s.panel.close_on_select ==> r == (s, Seq::<EffectView>::empty())
        }),
{
    let (q, out) = s.panel.on_row_clicked(name, num);
    let s1 = SwitcherView { panel: q, ..s };
    if !s.panel.close_on_select {
        let w = s.panel.cancel_pending().1 + seq![PanelActionView::Restyle];
        let switch = PanelActionView::Switch { name, num };
        assert(out =~= w + seq![switch]);
        lemma_turn(s, q, w, seq![switch]);
        crate::promises::lemma_heed_one(s1, switch);
        lemma_one_switch(s1.heed(switch).1[0]);
        assert(s1.heed(switch).1 =~= seq![s1.heed(switch).1[0]]);
    } else {
        lemma_window_turn(s, (q, out));
        assert(s.after((q, out)).1 =~= seq![]);
    }
}

/// When the debounce is over sway is asked for what was pending, by its number,
/// unless it is there already: on the origin, with nothing else previewed. Then
/// a preview is on exactly if that is not the origin. Without an origin nothing
/// is previewed.
pub proof fn law_a_preview_is_one_switch(s: SwitcherView, now: u64)
    requires
        s.wf(),
    ensures
        ({
            let r = crate::promises::react(
                s,
                Happening::Gesture(GestureView::DebounceElapsed),
                now,
            );
            let asked = switches_in(r.1);
            &&& r.0 == (SwitcherView { panel: r.0.panel, previewing: r.0.previewing, ..s })
            &&& match (s.panel.pending, s.preview_origin) {
                (Some(wanted), Some(origin)) => {
                    &&& r.0.previewing <==> wanted.name != origin
                    &&& wanted.name == origin && !s.previewing ==> asked.len() == 0
                    &&& wanted.name != origin || s.previewing ==> asked == seq![
                        (wanted.name, wanted.num),
                    ]
                },
                _ => asked.len() == 0 && r.0.previewing == s.previewing,
            }
        }),
{
    let (q, out) = s.panel.debounce_elapsed();
    let s1 = SwitcherView { panel: q, ..s };
    if let Some(wanted) = s.panel.pending {
        let w = seq![PanelActionView::Restyle];
        let preview = PanelActionView::Preview { name: wanted.name, num: wanted.num };
        assert(out =~= w + seq![preview]);
        lemma_turn(s, q, w, seq![preview]);
        crate::promises::lemma_heed_one(s1, preview);
        let asked = s1.heed(preview).1;
        if asked.len() > 0 {
            lemma_one_switch(asked[0]);
            assert(asked =~= seq![asked[0]]);
        }
    } else {
        lemma_window_turn(s, (q, out));
    }
}

/// Closing without a choice asks sway for the origin if a preview had gone
/// elsewhere, once and by its name, and for nothing else; the captures go on,
/// and nothing of the showing is left.
pub proof fn law_closing_asks_for_the_origin(s: SwitcherView, e: Happening, now: u64)
    requires
        s.wf(),
        s.panel.visible,
        crate::promises::closes(s, e),
    ensures
        ({
            let r = crate::promises::react(s, e, now);
            let asked = switches_in(r.1);
            &&& crate::panel_steps::is_put_away(s.panel, r.0.panel)
            &&& r.0 == (SwitcherView {
                panel: r.0.panel,
                shown_on: None,
                preview_origin: None,
                previewing: false,
                pending_show: None,
                ..s
            })
            &&& r.1.contains(EffectView::SetPaused(false))
            &&& r.1.contains(EffectView::Window(PanelActionView::Withdraw))
            &&& match s.preview_origin {
                Some(origin) => if s.panel.previewed == Some(origin) {
                    asked.len() == 0
                } else {
                    asked == seq![(origin, None::<i32>)]
                },
                None => asked.len() == 0,
            }
        }),
{
    lemma_closing(s);
    match e {
        Happening::Gesture(g) => {},
        _ => {
            let (s2, out2) = s.after(s.panel.close(false));
            let none: Seq<EffectView> = seq![];
            assert(s.without_pending_show().0 == s);
            assert(s.without_pending_show().1 =~= none);
            assert(none + out2 =~= out2);
            let last = EffectView::SetPaused(false);
            let all = out2.push(last);
            assert(all =~= out2 + seq![last]);
            lemma_switches_sum(out2, seq![last]);
            lemma_one_switch(last);
            assert(switches_in(all) =~= switches_in(out2));
            assert(all[out2.len() as int] == last);
            let gone = EffectView::Window(PanelActionView::Withdraw);
            assert(all[out2.index_of(gone)] == gone);
        },
    }
}

proof fn lemma_closing(s: SwitcherView)
    requires
        s.wf(),
        s.panel.visible,
    ensures
        ({
            let r = s.after(s.panel.close(false));
            &&& r.0 == (SwitcherView {
                panel: s.panel.close(false).0,
                shown_on: None,
                preview_origin: None,
                previewing: false,
                pending_show: None,
                ..s
            })
            &&& r.1.contains(EffectView::SetPaused(false))
            &&& r.1.contains(EffectView::Window(PanelActionView::Withdraw))
            &&& switches_in(r.1) =~= if s.previewing {
                seq![(s.preview_origin->0, None::<i32>)]
            } else {
                seq![]
            }
        }),
{
    let (q, out) = s.panel.close(false);
    let s1 = SwitcherView { panel: q, ..s };
    let w = s.panel.cancel_pending().1 + seq![PanelActionView::Restyle, PanelActionView::Withdraw];
    let hidden = PanelActionView::Hidden { committed: false };
    assert(out =~= w + seq![hidden]);
    lemma_turn(s, q, w, seq![hidden]);
    crate::promises::lemma_heed_one(s1, hidden);
    let told = EffectView::SetPaused(false);
    let own = s1.heed(hidden).1;
    let all = s.after((q, out)).1;
    let n = w.len() as int;
    assert(all[n] == own[0]);
    assert(own[0] == told);
    assert(all[n - 1] == EffectView::Window(w[n - 1]));
    if s.previewing {
        let back = EffectView::SwitchTo { name: s.preview_origin->0, num: None };
        assert(own =~= seq![told] + seq![back]);
        lemma_switches_sum(seq![told], seq![back]);
        lemma_one_switch(back);
    } else {
        assert(own =~= seq![told]);
    }
    lemma_one_switch(told);
}

/// What going down comes to, in order: a debounce is stopped, the rows are put
/// right, the window is withdrawn, the captures go on, and then sway is asked.
pub open spec fn going_down(p: PanelView, asked: Seq<EffectView>) -> Seq<EffectView> {
    (if p.pending is Some {
        seq![EffectView::Window(PanelActionView::StopDebounce)]
    } else {
        seq![]
    }) + seq![
        EffectView::Window(PanelActionView::Restyle),
        EffectView::Window(PanelActionView::Withdraw),
        EffectView::SetPaused(false),
    ] + asked
}

/// Sway is asked last of all, once the panel is down and the captures go on,
/// whether the panel goes down by a choice or not.
pub proof fn law_sway_is_asked_last(s: SwitcherView, g: GestureView, now: u64)
    requires
        s.wf(),
        s.panel.visible,
        !s.panel.gesture(g, now).0.visible,
    ensures
        ({
            let r = crate::promises::react(s, Happening::Gesture(g), now);
            exists|asked: Seq<EffectView>|
                #![trigger going_down(s.panel, asked)]
                r.1 == going_down(s.panel, asked) && asked.len() <= 1 && (asked.len() == 1
                    ==> asked[0] is SwitchTo)
        }),
{
    let (q, out) = s.panel.gesture(g, now);
    let s1 = SwitcherView { panel: q, ..s };
    let stop = s.panel.cancel_pending().1;
    let w = stop + seq![PanelActionView::Restyle, PanelActionView::Withdraw];
    lemma_going_down(s.panel, g, now);
    let first = w.map_values(|a: PanelActionView| EffectView::Window(a));
    let r = s.after((q, out)).1;
    let n = stop.len() as int;
    let hidden = out[n + 2];
    crate::promises::lemma_heed_one(s1, hidden);
    let told = s1.heed(hidden).1;
    if out.len() == n + 3 {
        lemma_turn(s, q, w, seq![hidden]);
        let asked = told.subrange(1, told.len() as int);
        assert(told[0] == EffectView::SetPaused(false));
        assert(r =~= first + told);
        assert(r =~= going_down(s.panel, asked));
    } else {
        let last = out[n + 3];
        lemma_turn(s, q, w, seq![hidden, last]);
        assert(seq![hidden, last] =~= seq![hidden] + seq![last]);
        crate::promises::lemma_heed_sum(s1, seq![hidden], seq![last]);
        let s2 = s1.heed(hidden).0;
        crate::promises::lemma_heed_one(s2, last);
        let asked = s2.heed(last).1;
        assert(told =~= seq![EffectView::SetPaused(false)]);
        assert(r =~= first + (told + asked));
        assert(r =~= going_down(s.panel, asked));
    }
}

/// What the panel wants when a gesture takes it down.
proof fn lemma_going_down(p: PanelView, g: GestureView, now: u64)
    requires
        p.wf(),
        p.visible,
        !p.gesture(g, now).0.visible,
    ensures
        ({
            let out = p.gesture(g, now).1;
            let stop = p.cancel_pending().1;
            let w = stop + seq![PanelActionView::Restyle, PanelActionView::Withdraw];
            let n = stop.len() as int;
            &&& n + 3 <= out.len() <= n + 4
            &&& out[n + 2] is Hidden
            &&& out.len() == n + 3 ==> out =~= w + seq![out[n + 2]]
            &&& out.len() == n + 4 ==> out =~= w + seq![out[n + 2], out[n + 3]] && out[n
                + 3] is Switch && out[n + 2] == (PanelActionView::Hidden { committed: true })
        }),
{
    let q = PanelView { activated: true, ..p };
    match g {
        GestureView::Motion { name, num } => crate::promises::lemma_quiet_gestures(p, g, now),
        GestureView::Enter { name, num } => crate::promises::lemma_quiet_gestures(p, g, now),
        GestureView::Leave => crate::promises::lemma_quiet_gestures(p, g, now),
        GestureView::Wheel { steps } => crate::promises::lemma_quiet_gestures(p, g, now),
        GestureView::Click { name, num } => lemma_commit_asks(p, Some((name, num))),
        GestureView::ClickOutside => {},
        GestureView::KeyPressed(key) => lemma_commit_asks(p, p.selected()),
        GestureView::KeyReleased(key) => lemma_commit_asks(p, p.selected()),
        GestureView::Active { modifier_held } => lemma_commit_asks(q, q.selected()),
        GestureView::DebounceElapsed => {},
    }
}

proof fn lemma_commit_asks(p: PanelView, target: Option<(Seq<char>, Option<i32>)>)
    requires
        p.wf(),
        p.visible,
    ensures
        ({
            let out = p.commit(target).1;
            let stop = p.cancel_pending().1;
            let w = stop + seq![PanelActionView::Restyle, PanelActionView::Withdraw];
            let n = stop.len() as int;
            &&& n + 3 <= out.len() <= n + 4
            &&& out[n + 2] == (PanelActionView::Hidden { committed: true })
            &&& out.len() == n + 3 ==> out =~= w + seq![out[n + 2]]
            &&& out.len() == n + 4 ==> out =~= w + seq![out[n + 2], out[n + 3]] && out[n
                + 3] is Switch
        }),
{
}

// ---------------------------------------------------------------- commands --

/// `next` is one step on and `prev` one step back; so is `toggle` in hold mode
/// one step on.
pub proof fn law_next_and_prev_are_single_steps(s: SwitcherView, now: u64)
    ensures
        crate::promises::react(s, Happening::Msg(MsgView::Control(Command::Next)), now) == s.step(
            1,
        ),
        crate::promises::react(s, Happening::Msg(MsgView::Control(Command::Prev)), now) == s.step(
            (-1) as i32,
        ),
        s.mode is Hold ==> crate::promises::react(
            s,
            Happening::Msg(MsgView::Control(Command::Toggle)),
            now,
        ) == s.step(1),
{
}

/// What a show begins with: the captures pause, a fresh frame of the focused
/// output is asked for, and the wait for it starts.
pub open spec fn opening(output: Seq<char>) -> Seq<EffectView> {
    seq![
        EffectView::SetPaused(true),
        EffectView::RequestCapture { output, reason: CaptureReason::Toggle },
        EffectView::StartFallback,
    ]
}

/// A step while the panel is down begins a show on the focused output. In hold
/// mode, if the opening press is to count, the show is that many steps on,
/// backwards for a negative number; else it is none. A further step while the
/// show is pending adds to that and does nothing else.
pub proof fn law_the_opening_press_is_the_first_step(
    s: SwitcherView,
    n: i32,
    m: i32,
)
    requires
        s.wf(),
        !s.panel.visible,
        s.pending_show is None,
        s.snapshot.focused_output.len() > 0,
    ensures
        ({
            let counts = s.mode is Hold && s.hold_selects_next;
            let output = s.snapshot.focused_output;
            let (s1, out1) = s.step(n);
            let (s2, out2) = s1.step(m);
            &&& s1 == (SwitcherView { pending_show: s1.pending_show, ..s })
            &&& s1.pending_show matches Some(p) && p.output == output && p.steps == if counts {
                n
            } else {
                0
            }
            &&& out1 == opening(output)
            &&& s2 == (SwitcherView { pending_show: s2.pending_show, ..s })
            &&& out2.len() == 0
            &&& s2.pending_show matches Some(p) && p.output == output
            &&& counts && i32::MIN <= n + m <= i32::MAX ==> s2.pending_show->0.steps == n + m
            &&& !counts ==> s2.pending_show->0.steps == m
        }),
{
}

/// Without a focused output no show begins.
pub proof fn law_no_show_without_an_output(s: SwitcherView, n: i32, now: u64)
    requires
        s.wf(),
        !s.panel.visible,
        s.pending_show is None,
        s.snapshot.focused_output.len() == 0,
    ensures
        s.step(n) == (s, Seq::<EffectView>::empty()),
        crate::promises::react(s, Happening::Msg(MsgView::Control(Command::Show)), now) == (
            s,
            Seq::<EffectView>::empty(),
        ),
        s.mode is Toggle ==> crate::promises::react(
            s,
            Happening::Msg(MsgView::Control(Command::Toggle)),
            now,
        ) == (s, Seq::<EffectView>::empty()),
{
}

/// `show`, and `toggle` in toggle mode, begin a show on the focused output
/// without any step if the panel is down and none is on its way; if one is, or
/// the panel is up, `show` does nothing.
pub proof fn law_show_begins_a_show_without_steps(s: SwitcherView, c: Command, now: u64)
    requires
        s.wf(),
        s.snapshot.focused_output.len() > 0,
        c is Show || (c is Toggle && s.mode is Toggle && !crate::promises::busy(s)),
    ensures
        ({
            let r = crate::promises::react(s, Happening::Msg(MsgView::Control(c)), now);
            let output = s.snapshot.focused_output;
            if crate::promises::busy(s) {
                r == (s, Seq::<EffectView>::empty())
            } else {
                &&& r.0 == (SwitcherView {
                    pending_show: Some(PendingShowView { output, steps: 0 }),
                    ..s
                })
                &&& r.1 == opening(output)
            }
        }),
{
}

/// `hide`, and `toggle` in toggle mode, take back a show that is on its way:
/// nothing is pending, the wait is over and the captures go on.
pub proof fn law_hiding_takes_back_a_show(s: SwitcherView, c: Command, now: u64)
    requires
        s.wf(),
        !s.panel.visible,
        c is Hide || (c is Toggle && s.mode is Toggle && s.pending_show is Some),
    ensures
        ({
            let r = crate::promises::react(s, Happening::Msg(MsgView::Control(c)), now);
            &&& r.0 == (SwitcherView { pending_show: None, ..s })
            &&& r.1 == if s.pending_show is Some {
                seq![EffectView::CancelFallback, EffectView::SetPaused(false)]
            } else {
                seq![EffectView::SetPaused(false)]
            }
        }),
{
    let (s1, out1) = s.without_pending_show();
    let none: Seq<PanelActionView> = seq![];
    assert(s1.panel.close(false).1 =~= none);
    lemma_window_turn(s1, s1.panel.close(false));
    let (s2, out2) = s1.after(s1.panel.close(false));
    assert(out2 =~= seq![]);
    let r = s.put_down();
    assert(r.1 =~= out1.push(EffectView::SetPaused(false)));
    assert(r.1 =~= if s.pending_show is Some {
        seq![EffectView::CancelFallback, EffectView::SetPaused(false)]
    } else {
        seq![EffectView::SetPaused(false)]
    });
}

/// A step while the panel is up moves its selection and asks for window work
/// alone.
pub proof fn law_a_step_moves_the_panel_that_is_up(s: SwitcherView, n: i32)
    requires
        s.wf(),
        s.panel.visible,
    ensures
        s.step(n).0 == (SwitcherView { panel: s.panel.step(n).0, ..s }),
        s.step(n).1 == s.panel.step(n).1.map_values(
            |a: PanelActionView| EffectView::Window(a),
        ),
{
    crate::promises::lemma_step_is_quiet(s.panel, n);
    lemma_window_turn(s, s.panel.step(n));
}

/// `quit`, and losing sway, end the process and change nothing; nothing else
/// does.
pub proof fn law_only_quitting_shuts_down(s: SwitcherView, text: Seq<char>, now: u64)
    ensures
        crate::promises::react(s, Happening::Msg(MsgView::Control(Command::Quit)), now) == (
            s,
            seq![EffectView::Shutdown],
        ),
        crate::promises::react(s, Happening::Msg(MsgView::IpcLost(text)), now) == (
            s,
            seq![EffectView::Shutdown],
        ),
{
}

// ----------------------------------------------------------------- showing --

/// Whether `name` is where the user is on the output: on the first workspace
/// there that has the focus, else on the first one it shows.
pub open spec fn is_home(
    ws: Seq<WorkspaceView>,
    output: Seq<char>,
    name: Option<Seq<char>>,
    k: int,
) -> bool {
    let here = |w: WorkspaceView| w.output == output;
    if exists|j: int| 0 <= j < ws.len() && here(#[trigger] ws[j]) && ws[j].focused {
        &&& 0 <= k < ws.len() && here(ws[k]) && ws[k].focused && name == Some(ws[k].name)
        &&& forall|j: int| 0 <= j < k && here(#[trigger] ws[j]) ==> !ws[j].focused
    } else if exists|j: int| 0 <= j < ws.len() && here(#[trigger] ws[j]) && ws[j].visible {
        &&& 0 <= k < ws.len() && here(ws[k]) && ws[k].visible && name == Some(ws[k].name)
        &&& forall|j: int| 0 <= j < k && here(#[trigger] ws[j]) ==> !ws[j].visible
    } else {
        name is None
    }
}

proof fn lemma_home(s: SwitcherView, output: Seq<char>, name: Option<Seq<char>>, k: int)
    requires
        is_home(s.snapshot.workspaces, output, name, k),
    ensures
        s.origin_on(output) == name,
{
    let ws = s.snapshot.workspaces;
    let rows = s.snapshot.on_output(output);
    let on = crate::model::is_on(output);
    let f = |w: WorkspaceView| w.focused;
    crate::lists::lemma_position(rows, f);
    if exists|j: int| 0 <= j < ws.len() && ws[j].output == output && (#[trigger] ws[j]).focused {
        lemma_first_of_filter(ws, on, f, k);
    } else {
        if crate::lists::position(rows, f) is Some {
            let i = crate::lists::position(rows, f)->Some_0;
            ws.lemma_filter_contains_rev(on, rows[i]);
            let j = ws.index_of(rows[i]);
            assert(on(rows[i])) by {
                ws.lemma_filter_pred(on, i);
            }
            assert(ws[j].focused);
        }
        let v = crate::model::is_visible_on(output);
        crate::lists::lemma_position(ws, v);
        if exists|j: int|
            0 <= j < ws.len() && ws[j].output == output && (#[trigger] ws[j]).visible {
            assert(v(ws[k]));
            crate::lists::lemma_position_is(ws, v, k);
        }
    }
}

/// The first element that meets both conditions is the first of those meeting
/// the one that meets the other.
proof fn lemma_first_of_filter(
    ws: Seq<WorkspaceView>,
    on: spec_fn(WorkspaceView) -> bool,
    f: spec_fn(WorkspaceView) -> bool,
    k: int,
)
    requires
        0 <= k < ws.len(),
        on(ws[k]),
        f(ws[k]),
        forall|j: int| 0 <= j < k && on(#[trigger] ws[j]) ==> !f(ws[j]),
    ensures
        crate::lists::first(ws.filter(on), f) == Some(ws[k]),
    decreases ws.len(),
{
    reveal(Seq::filter);
    let init = ws.drop_last();
    let rest = init.filter(on);
    if k == ws.len() - 1 {
        assert(ws.filter(on) =~= rest.push(ws[k]));
        assert forall|i: int| 0 <= i < rest.len() implies !f(#[trigger] rest[i]) by {
            init.lemma_filter_contains_rev(on, rest[i]);
            init.lemma_filter_pred(on, i);
            let j = init.index_of(rest[i]);
            assert(ws[j] == rest[i]);
        }
        crate::lists::lemma_position_is(ws.filter(on), f, rest.len() as int);
    } else {
        assert forall|j: int| 0 <= j < k && on(#[trigger] init[j]) implies !f(init[j]) by {
            assert(init[j] == ws[j]);
        }
        lemma_first_of_filter(init, on, f, k);
        crate::lists::lemma_position(rest, f);
        let i = crate::lists::position(rest, f)->Some_0;
        let all = ws.filter(on);
        assert(all == rest || all =~= rest.push(ws.last()));
        assert forall|j: int| 0 <= j < i implies !f(#[trigger] all[j]) by {
            assert(all[j] == rest[j]);
        }
        crate::lists::lemma_position_is(all, f, i);
    }
}

/// A show that is pending goes ahead when its wait is over: the panel is up on
/// its output, with the workspaces of that output and with the selection as
/// many rows from where the user is as there were steps, going round. Where the
/// user is, is where closing goes. The pointer is to be looked at again.
pub proof fn law_a_pending_show_goes_ahead(
    s: SwitcherView,
    output: Seq<char>,
    steps: i32,
    now: u64,
    home: Option<Seq<char>>,
    k: int,
)
    requires
        s.wf(),
        s.pending_show == Some(PendingShowView { output, steps }),
        is_home(s.snapshot.workspaces, output, home, k),
    ensures
        ({
            let r = crate::promises::react(s, Happening::FallbackDue, now);
            &&& r.0 == (SwitcherView {
                panel: r.0.panel,
                pending_show: None,
                shown_on: Some(output),
                preview_origin: home,
                previewing: false,
                ..s
            })
            &&& r.0.panel.visible
            &&& r.0.panel.shown_at == Some(now)
            &&& r.0.panel.origin == home
            &&& r.0.panel.previewed == home
            &&& !r.0.panel.activated && !r.0.panel.pointer_moved && !r.0.panel.hover_armed
            &&& r.0.panel.rendered == s.snapshot.workspaces.filter(
                |w: WorkspaceView| w.output == output,
            )
            &&& r.1.contains(EffectView::Window(PanelActionView::Present { output }))
            &&& r.1.last() is NudgeLater
            &&& switches_in(r.1).len() == 0
            &&& steps == 0 ==> r.0.panel.pending is None
        }),
{
    let s0 = SwitcherView { pending_show: None, ..s };
    lemma_home(s0, output, home, k);
    lemma_do_show(s0, output, steps, now);
}

/// The end of a wait that is over already is nothing.
pub proof fn law_no_show_no_fallback(s: SwitcherView, now: u64)
    requires
        s.pending_show is None,
    ensures
        crate::promises::react(s, Happening::FallbackDue, now) == (
            s,
            Seq::<EffectView>::empty(),
        ),
{
}

/// A show puts the rows right first, then presents the window, then makes the
/// steps, and asks for the pointer to be looked at again last.
pub proof fn law_a_show_is_in_order(s: SwitcherView, output: Seq<char>, steps: i32, now: u64)
    requires
        s.wf(),
        s.pending_show == Some(PendingShowView { output, steps }),
    ensures
        ({
            let r = crate::promises::react(s, Happening::FallbackDue, now);
            let (p1, out1) = s.panel.update(s.snapshot, output);
            let (p2, out2) = p1.show(output, r.0.preview_origin, now);
            let (p3, out3) = if steps != 0 {
                p2.step(steps)
            } else {
                (p2, Seq::<PanelActionView>::empty())
            };
            &&& r.0.panel == p3
            &&& r.1 == (out1 + out2 + out3).map_values(
                |a: PanelActionView| EffectView::Window(a),
            ).push(EffectView::NudgeLater)
        }),
{
    let s0 = SwitcherView { pending_show: None, ..s };
    lemma_do_show(s0, output, steps, now);
    let origin = s0.origin_on(output);
    let t1 = s0.panel.update(s0.snapshot, output);
    crate::promises::lemma_update_is_quiet(s0.panel, s0.snapshot, output);
    lemma_window_turn(s0, t1);
    let s1 = s0.after(t1).0;
    let t2 = s1.panel.show(output, origin, now);
    lemma_window_turn(s1, t2);
    let s2 = s1.after(t2).0;
    let s3 = SwitcherView {
        shown_on: Some(output),
        preview_origin: origin,
        previewing: false,
        ..s2
    };
    crate::promises::lemma_step_is_quiet(s3.panel, steps);
    lemma_window_turn(s3, s3.panel.step(steps));
    let out3 = if steps != 0 {
        s3.panel.step(steps).1
    } else {
        seq![]
    };
    assert(s0.do_show(output, steps, now).1 =~= (t1.1 + t2.1 + out3).map_values(
        |a: PanelActionView| EffectView::Window(a),
    ).push(EffectView::NudgeLater));
}

/// The steps of a show that goes ahead are made from the row of where the user
/// is, or from the first row if it has none, on from the last row to the first
/// and back: a preview of the row they lead to is pending, by its number, and
/// none if that is the row they began at.
pub proof fn law_queued_steps_go_round_from_home(
    s: SwitcherView,
    output: Seq<char>,
    steps: i32,
    now: u64,
    home: Option<Seq<char>>,
    k: int,
    from: int,
    to: int,
)
    requires
        s.wf(),
        s.pending_show == Some(PendingShowView { output, steps }),
        is_home(s.snapshot.workspaces, output, home, k),
        ({
            let rows = s.snapshot.workspaces.filter(|w: WorkspaceView| w.output == output);
            &&& 0 <= from < rows.len()
            &&& home matches Some(name) ==> crate::panel_steps::is_first_row(rows, from, name)
            &&& home is None ==> from == 0
            &&& 0 <= to < rows.len()
            &&& crate::panel_steps::is_first_row(rows, to, rows[to].name)
            &&& (from + steps - to) % (rows.len() as int) == 0
        }),
    ensures
        ({
            let r = crate::promises::react(s, Happening::FallbackDue, now).0;
            let row = r.panel.rendered[to];
            &&& to == from ==> r.panel.pending is None
            &&& to != from ==> (r.panel.pending matches Some(p) && p.name == row.name && p.num
                == row.num)
        }),
{
    let s0 = SwitcherView { pending_show: None, ..s };
    lemma_home(s0, output, home, k);
    lemma_do_show(s0, output, steps, now);
    let shown = shown_panel(s0, output, now);
    if steps != 0 {
        crate::panel_steps::law_a_step_goes_round(shown, steps, from, to);
    } else {
        let len = shown.rendered.len() as int;
        let d = from - to;
        vstd::arithmetic::div_mod::lemma_fundamental_div_mod(d, len);
        if d != 0 {
            assert(false) by (nonlinear_arith)
                requires
                    d == len * (d / len),
                    d != 0,
                    -len < d < len,
            ;
        }
    }
}

/// The panel as it comes up, before any step.
spec fn shown_panel(s: SwitcherView, output: Seq<char>, now: u64) -> PanelView {
    s.panel.update(s.snapshot, output).0.show(output, s.origin_on(output), now).0
}

proof fn lemma_do_show(s: SwitcherView, output: Seq<char>, steps: i32, now: u64)
    requires
        s.wf(),
        !s.panel.visible,
        s.pending_show is None,
    ensures
        ({
            let r = s.do_show(output, steps, now);
            let shown = shown_panel(s, output, now);
            let home = s.origin_on(output);
            &&& r.0 == (SwitcherView {
                panel: if steps != 0 {
                    shown.step(steps).0
                } else {
                    shown
                },
                shown_on: Some(output),
                preview_origin: home,
                previewing: false,
                ..s
            })
            &&& shown.wf() && shown.visible && shown.shown_at == Some(now)
            &&& shown.origin == home && shown.previewed == home && shown.pending is None
            &&& !shown.activated && !shown.pointer_moved && !shown.hover_armed
            &&& shown.rendered == s.snapshot.workspaces.filter(
                |w: WorkspaceView| w.output == output,
            )
            &&& shown.step(steps).0 == (PanelView { pending: shown.step(steps).0.pending, ..shown })
            &&& r.1.contains(EffectView::Window(PanelActionView::Present { output }))
            &&& r.1.last() is NudgeLater
            &&& switches_in(r.1).len() == 0
        }),
{
    let origin = s.origin_on(output);
    let t1 = s.panel.update(s.snapshot, output);
    crate::panel_steps::law_the_rows_are_the_workspaces_of_the_output(
        s.panel,
        s.snapshot,
        output,
    );
    crate::promises::lemma_update_is_quiet(s.panel, s.snapshot, output);
    lemma_window_turn(s, t1);
    let (s1, out1) = s.after(t1);
    let t2 = s1.panel.show(output, origin, now);
    crate::panel_steps::law_a_panel_comes_up_on_the_origin(s1.panel, output, origin, now);
    lemma_window_turn(s1, t2);
    let (s2, out2) = s1.after(t2);
    let s3 = SwitcherView {
        shown_on: Some(output),
        preview_origin: origin,
        previewing: false,
        ..s2
    };
    crate::promises::lemma_step_is_quiet(s3.panel, steps);
    lemma_window_turn(s3, s3.panel.step(steps));
    let out4 = if steps != 0 {
        s3.after(s3.panel.step(steps)).1
    } else {
        seq![]
    };
    let all = out1 + out2 + out4;
    lemma_switches_sum(out1, out2);
    lemma_switches_sum(out1 + out2, out4);
    let nudge = EffectView::NudgeLater;
    lemma_switches_sum(all, seq![nudge]);
    lemma_one_switch(nudge);
    assert(all.push(nudge) =~= all + seq![nudge]);
    let present = EffectView::Window(PanelActionView::Present { output });
    assert(out2.last() == present);
    assert(all.push(nudge)[(out1.len() + out2.len()) - 1] == present);
}

/// The frame that a show waits for lets it go ahead, well or not, as the end of
/// its wait does, and ends the wait. Any other frame leaves the panel and the
/// show alone.
pub proof fn law_the_frame_waited_for_ends_the_wait(
    s: SwitcherView,
    output: Seq<char>,
    thumb: ThumbnailView,
    reason: CaptureReason,
    error: Seq<char>,
    now: u64,
)
    requires
        s.wf(),
    ensures
        ({
            let came = crate::promises::react(
                s,
                Happening::Msg(MsgView::Frame { output, thumb, reason }),
                now,
            );
            let failed = crate::promises::react(
                s,
                Happening::Msg(MsgView::CaptureFailed { output, reason, error }),
                now,
            );
            let filed = SwitcherView { thumbs: came.0.thumbs, ..s };
            if reason is Toggle && s.pending_show is Some && s.pending_show->0.output == output {
                &&& came.0 == crate::promises::react(filed, Happening::FallbackDue, now).0
                &&& failed.0 == crate::promises::react(s, Happening::FallbackDue, now).0
                &&& came.1 == seq![EffectView::CancelFallback] + crate::promises::react(
                    filed,
                    Happening::FallbackDue,
                    now,
                ).1
                &&& failed.1 == seq![EffectView::CancelFallback] + crate::promises::react(
                    s,
                    Happening::FallbackDue,
                    now,
                ).1
            } else {
                &&& came.0 == filed
                &&& failed == (s, Seq::<EffectView>::empty())
            }
        }),
{
    let so_far = s.on_frame(output, thumb);
    crate::promises::lemma_on_frame(s, output, thumb);
    if reason is Toggle && s.pending_show is Some && s.pending_show->0.output == output {
        let p = s.pending_show->0;
        let s0 = SwitcherView { pending_show: None, ..so_far.0 };
        lemma_do_show(s0, output, p.steps, now);
        lemma_do_show(SwitcherView { pending_show: None, ..s }, output, p.steps, now);
        let came = s.handle(MsgView::Frame { output, thumb, reason }, now);
        let failed = s.handle(MsgView::CaptureFailed { output, reason, error }, now);
        assert(came.0.thumbs == so_far.0.thumbs);
        assert(so_far.1 =~= seq![]);
        let filed = SwitcherView { thumbs: came.0.thumbs, ..s };
        assert(filed == so_far.0);
        assert(came.1 =~= seq![EffectView::CancelFallback] + filed.fallback_due(now).1);
        assert(failed.1 =~= seq![EffectView::CancelFallback] + s.fallback_due(now).1);
    } else {
        let none: Seq<EffectView> = seq![];
        assert(none + none =~= none);
        assert(so_far.1 + none =~= so_far.1);
    }
}

// ---------------------------------------------------------------- pictures --

/// A frame is filed under the first workspace that its output shows, in place
/// of what was there, and under no other; if the output shows none it is filed
/// nowhere. While the panel is up it goes on the rows of that workspace.
pub proof fn law_a_frame_is_filed_under_what_its_output_shows(
    s: SwitcherView,
    output: Seq<char>,
    thumb: ThumbnailView,
    reason: CaptureReason,
    now: u64,
    k: int,
    row: int,
)
    requires
        s.wf(),
    ensures
        ({
            let r = crate::promises::react(
                s,
                Happening::Msg(MsgView::Frame { output, thumb, reason }),
                now,
            );
            let ws = s.snapshot.workspaces;
            let shown = |w: WorkspaceView| w.output == output && w.visible;
            &&& (forall|j: int| 0 <= j < ws.len() ==> !shown(#[trigger] ws[j])) ==> r.0.thumbs
                == s.thumbs
            &&& 0 <= k < ws.len() && shown(ws[k]) && (forall|j: int|
                0 <= j < k ==> !shown(#[trigger] ws[j])) ==> {
                &&& r.0.thumbs == s.thumbs.insert(ws[k].name, thumb)
                &&& s.panel.visible && 0 <= row < s.panel.rendered.len()
                    && s.panel.rendered[row].name == ws[k].name ==> r.1.contains(
                    EffectView::Window(PanelActionView::SetThumb { row }),
                )
                &&& s.panel.visible ==> r.1 == crate::panel::thumbs_for(
                    s.panel.rendered,
                    ws[k].name,
                ).map_values(|a: PanelActionView| EffectView::Window(a))
            }
            &&& !s.panel.visible && (!(reason is Toggle) || s.pending_show is None) ==> r.1.len()
                == 0
        }),
{
    let ws = s.snapshot.workspaces;
    let v = crate::model::is_visible_on(output);
    let shown = |w: WorkspaceView| w.output == output && w.visible;
    assert(v =~= shown);
    crate::lists::lemma_position(ws, v);
    crate::promises::lemma_on_frame(s, output, thumb);
    let so_far = s.on_frame(output, thumb);
    lemma_completing_keeps_pictures(so_far.0, output, now);
    if 0 <= k < ws.len() && shown(ws[k]) && (forall|j: int|
        0 <= j < k ==> !shown(#[trigger] ws[j])) {
        crate::lists::lemma_position_is(ws, v, k);
        let name = ws[k].name;
        let s1 = SwitcherView { thumbs: s.thumbs.insert(name, thumb), ..s };
        if s.panel.visible {
            let actions = crate::panel::thumbs_for(s.panel.rendered, name);
            crate::promises::lemma_thumbs_are_window_work(s.panel.rendered, name);
            crate::promises::lemma_heed_window(s1, actions);
            let none: Seq<EffectView> = seq![];
            assert(so_far.1 + none =~= so_far.1);
            assert(s.handle(MsgView::Frame { output, thumb, reason }, now).1 =~= so_far.1);
            if 0 <= row < s.panel.rendered.len() && s.panel.rendered[row].name == name {
                crate::panel_steps::law_a_thumbnail_goes_on_its_rows(s.panel.rendered, name, row);
                let a = PanelActionView::SetThumb { row };
                let i = actions.index_of(a);
                let r = s.handle(MsgView::Frame { output, thumb, reason }, now);
                assert(so_far.1[i] == EffectView::Window(a));
                assert(r.1[i] == so_far.1[i]);
            }
        }
    }
}

proof fn lemma_completing_keeps_pictures(s: SwitcherView, output: Seq<char>, now: u64)
    requires
        s.wf(),
    ensures
        s.complete_pending_show(output, now).0.thumbs == s.thumbs,
        s.complete_pending_show(output, now).0.snapshot == s.snapshot,
{
    if let Some(p) = s.pending_show {
        lemma_do_show(SwitcherView { pending_show: None, ..s }, p.output, p.steps, now);
    }
}

/// A rename carries the picture over: it is found under the new name, whatever
/// was there before is gone, nothing is left under the old name, and no other
/// picture is touched.
pub proof fn law_a_rename_carries_the_picture_over(
    s: SwitcherView,
    from: Seq<char>,
    to: Seq<char>,
    other: Seq<char>,
    now: u64,
)
    requires
        s.wf(),
    ensures
        ({
            let r = crate::promises::react(
                s,
                Happening::Msg(MsgView::WorkspaceRenamed { from, to }),
                now,
            ).0;
            &&& r.thumbs.dom().contains(to) <==> from != to && s.thumbs.dom().contains(from)
            &&& from != to && s.thumbs.dom().contains(from) ==> r.thumbs[to] == s.thumbs[from]
            &&& !r.thumbs.dom().contains(from)
            &&& other != from && other != to ==> {
                &&& r.thumbs.dom().contains(other) <==> s.thumbs.dom().contains(other)
                &&& s.thumbs.dom().contains(other) ==> r.thumbs[other] == s.thumbs[other]
            }
            &&& r == (SwitcherView { panel: r.panel, thumbs: r.thumbs, ..s })
        }),
{
    crate::promises::lemma_repaint(
        SwitcherView { thumbs: crate::switcher::renamed(s.thumbs, from, to), ..s },
    );
}

/// While the panel is up, a rename or a removal puts the pictures on its rows
/// anew, and moves nothing else of it.
pub proof fn law_a_rename_or_removal_refreshes_the_rows(s: SwitcherView, m: MsgView, now: u64)
    requires
        s.wf(),
        m is WorkspaceRenamed || m is WorkspaceRemoved,
    ensures
        ({
            let r = crate::promises::react(s, Happening::Msg(m), now);
            &&& r.0 == (SwitcherView { panel: r.0.panel, thumbs: r.0.thumbs, ..s })
            &&& !s.panel.visible ==> r.0.panel == s.panel && r.1.len() == 0
            &&& s.panel.visible ==> {
                &&& r.1.contains(EffectView::Window(PanelActionView::RefreshThumbs))
                &&& r.0.panel.rendered == s.snapshot.workspaces.filter(
                    |w: WorkspaceView| Some(w.output) == s.shown_on,
                )
                &&& r.0.panel == s.panel.update(s.snapshot, s.shown_on->0).0
                &&& r.1 == s.panel.update(s.snapshot, s.shown_on->0).1.map_values(
                    |a: PanelActionView| EffectView::Window(a),
                )
            }
            &&& switches_in(r.1).len() == 0
        }),
{
    let thumbs = match m {
        MsgView::WorkspaceRenamed { from, to } => crate::switcher::renamed(s.thumbs, from, to),
        MsgView::WorkspaceRemoved { name } => s.thumbs.remove(name),
        _ => s.thumbs,
    };
    let s1 = SwitcherView { thumbs, ..s };
    law_a_fresh_state_is_taken_over(s1, s.snapshot, now);
    assert(SwitcherView { snapshot: s.snapshot, ..s1 } == s1);
}

/// Pictures change only with a frame, a rename or a removal.
pub proof fn law_nothing_else_touches_the_pictures(s: SwitcherView, e: Happening, now: u64)
    requires
        s.wf(),
        !(e matches Happening::Msg(m) && (m is Frame || m is WorkspaceRenamed
            || m is WorkspaceRemoved)),
    ensures
        crate::promises::react(s, e, now).0.thumbs == s.thumbs,
{
    match e {
        Happening::Msg(MsgView::State(snapshot)) => crate::promises::lemma_repaint(
            SwitcherView { snapshot, ..s },
        ),
        Happening::Msg(MsgView::CaptureFailed { output, reason, error }) => {
            lemma_completing_keeps_pictures(s, output, now);
        },
        Happening::Msg(MsgView::Control(c)) => lemma_commands_keep_pictures(s, c),
        Happening::Gesture(g) => law_gestures_go_to_the_panel(s, g, now, 0),
        Happening::FallbackDue => {
            if let Some(p) = s.pending_show {
                lemma_do_show(SwitcherView { pending_show: None, ..s }, p.output, p.steps, now);
            }
        },
        _ => {},
    }
}

proof fn lemma_commands_keep_pictures(s: SwitcherView, c: Command)
    requires
        s.wf(),
    ensures
        s.on_command(c).0.thumbs == s.thumbs,
        s.on_command(c).0.snapshot == s.snapshot,
{
    let s1 = s.without_pending_show().0;
    let t = s1.panel.close(false);
    lemma_panel_is_kept(SwitcherView { panel: t.0, ..s1 }, t.1);
    lemma_panel_is_kept(SwitcherView { panel: s.panel.step(1).0, ..s }, s.panel.step(1).1);
    let back = s.panel.step((-1) as i32);
    lemma_panel_is_kept(SwitcherView { panel: back.0, ..s }, back.1);
}

// ------------------------------------------------------------ what sway says --

/// A fresh state is taken over whole. While the panel is up its rows are the
/// workspaces of the output it is on from then on; while it is down nothing is
/// to be done.
pub proof fn law_a_fresh_state_is_taken_over(s: SwitcherView, snapshot: SnapshotView, now: u64)
    requires
        s.wf(),
    ensures
        ({
            let r = crate::promises::react(s, Happening::Msg(MsgView::State(snapshot)), now);
            &&& r.0 == (SwitcherView { snapshot, panel: r.0.panel, ..s })
            &&& !s.panel.visible ==> r.0.panel == s.panel && r.1.len() == 0
            &&& s.panel.visible ==> {
                &&& r.0.panel.rendered == snapshot.workspaces.filter(
                    |w: WorkspaceView| Some(w.output) == s.shown_on,
                )
                &&& r.1.contains(EffectView::Window(PanelActionView::RefreshThumbs))
                &&& r.0.panel.previewed == s.panel.previewed
                &&& r.0.panel.origin == s.panel.origin
                &&& r.0.panel == s.panel.update(snapshot, s.shown_on->0).0
                &&& r.1 == s.panel.update(snapshot, s.shown_on->0).1.map_values(
                    |a: PanelActionView| EffectView::Window(a),
                )
            }
            &&& switches_in(r.1).len() == 0
        }),
{
    let s1 = SwitcherView { snapshot, ..s };
    crate::promises::lemma_repaint(s1);
    if s.panel.visible {
        let output = s.shown_on->0;
        let t = s.panel.update(snapshot, output);
        crate::panel_steps::law_the_rows_are_the_workspaces_of_the_output(
            s.panel,
            snapshot,
            output,
        );
        crate::promises::lemma_update_is_quiet(s.panel, snapshot, output);
        lemma_window_turn(s1, t);
        let a = |w: WorkspaceView| w.output == output;
        let b = |w: WorkspaceView| Some(w.output) == s.shown_on;
        assert(a =~= b);
        let all = s1.after(t).1;
        assert(all[t.1.len() - 1] == EffectView::Window(PanelActionView::RefreshThumbs));
    }
}

/// A switch on an output makes exactly the workspace entered the visible one
/// there, leaves every other output and everything else as it was, and asks for
/// a capture of that output later.
pub proof fn law_a_switch_is_noted_in_the_snapshot(
    s: SwitcherView,
    output: Seq<char>,
    from: Option<Seq<char>>,
    to: Seq<char>,
    now: u64,
    i: int,
)
    ensures
        ({
            let r = crate::promises::react(
                s,
                Happening::Msg(MsgView::WorkspaceSwitched { output, from, to }),
                now,
            );
            let before = s.snapshot.workspaces;
            let after = r.0.snapshot.workspaces;
            &&& r.0 == (SwitcherView { snapshot: r.0.snapshot, ..s })
            &&& r.0.snapshot.focused_output == s.snapshot.focused_output
            &&& after.len() == before.len()
            &&& 0 <= i < before.len() ==> after[i] == (WorkspaceView {
                visible: after[i].visible,
                ..before[i]
            }) && after[i].visible == if before[i].output == output {
                before[i].name == to
            } else {
                before[i].visible
            }
            &&& r.1 == seq![EffectView::EnteredLater { output }]
        }),
{
}

/// The set of outputs is no news to the switcher.
pub proof fn law_outputs_are_no_news(s: SwitcherView, names: Seq<Seq<char>>, now: u64)
    ensures
        crate::promises::react(s, Happening::Msg(MsgView::CaptureOutputs(names)), now) == (
            s,
            Seq::<EffectView>::empty(),
        ),
{
}

/// A workspace entered a while ago is captured, unless the panel is up; the
/// pointer is looked at again only while it is up. Neither changes anything.
pub proof fn law_later_is_only_if_the_panel_is_down_or_up(
    s: SwitcherView,
    output: Seq<char>,
    now: u64,
)
    ensures
        crate::promises::react(s, Happening::EnteredDue(output), now).0 == s,
        crate::promises::react(s, Happening::EnteredDue(output), now).1 == if s.panel.visible {
            seq![]
        } else {
            seq![EffectView::RequestCapture { output, reason: CaptureReason::Entered }]
        },
        crate::promises::react(s, Happening::NudgeDue, now).0 == s,
        crate::promises::react(s, Happening::NudgeDue, now).1 == if s.panel.visible {
            seq![EffectView::NudgePointer]
        } else {
            seq![]
        },
{
}

/// The process starts with the panel down, no picture and nothing pending, in
/// the mode it is configured for.
pub proof fn law_a_process_starts_with_nothing(config: Config)
    ensures
        ({
            let s = SwitcherView::fresh(config);
            &&& s.wf()
            &&& !crate::promises::busy(s)
            &&& s.thumbs.dom() =~= Set::empty()
            &&& s.snapshot.workspaces.len() == 0 && s.snapshot.focused_output.len() == 0
            &&& s.mode == config.mode
            &&& s.hold_selects_next == config.hold_selects_next
            &&& s.panel == PanelView::fresh(config)
        }),
{
}

} // verus!
