//! What each gesture does to the panel, told by what is selected, previewed
//! and pending before and after it.

use crate::config::Config;
use crate::model::{SnapshotView, WorkspaceView};
use crate::panel::{GestureView, PanelActionView, PanelView, PendingView, PreviewSource};
use vstd::prelude::*;

verus! {

/// Whether row `k` is the first of that name.
pub open spec fn is_first_row(rows: Seq<WorkspaceView>, k: int, name: Seq<char>) -> bool {
    &&& 0 <= k < rows.len()
    &&& rows[k].name == name
    &&& forall|j: int| 0 <= j < k ==> (#[trigger] rows[j]).name != name
}

/// Whether the selection is on row `k`: on what is pending, else on what is
/// previewed, else on the origin; on the first row if that has none.
pub open spec fn is_selected(p: PanelView, k: int) -> bool {
    let name = match p.pending {
        Some(q) => Some(q.name),
        None => if p.previewed is Some {
            p.previewed
        } else {
            p.origin
        },
    };
    ||| name matches Some(n) && is_first_row(p.rendered, k, n)
    ||| k == 0 && (name matches Some(n) ==> forall|j: int|
        0 <= j < p.rendered.len() ==> (#[trigger] p.rendered[j]).name != n)
}

proof fn lemma_selected(p: PanelView, k: int)
    requires
        is_selected(p, k),
    ensures
        p.base() == k,
{
    if let Some(n) = p.live() {
        let q = crate::panel::row_named(n);
        crate::lists::lemma_position(p.rendered, q);
        if is_first_row(p.rendered, k, n) {
            crate::lists::lemma_position_is(p.rendered, q, k);
        }
    }
}

proof fn lemma_first_row(rows: Seq<WorkspaceView>, k: int, name: Seq<char>)
    requires
        is_first_row(rows, k, name),
    ensures
        crate::lists::position(rows, crate::panel::row_named(name)) == Some(k),
        crate::lists::first(rows, crate::panel::row_named(name)) == Some(rows[k]),
{
    crate::lists::lemma_position_is(rows, crate::panel::row_named(name), k);
}

// ---------------------------------------------------------------- choosing --

/// Whether the gesture chooses the selection: Return or Enter; in hold mode,
/// letting go of a modifier, or the window becoming active for the first time
/// with none held.
pub open spec fn chooses(p: PanelView, g: GestureView) -> bool {
    match g {
        GestureView::KeyPressed(key) => crate::promises::enters(key),
        GestureView::KeyReleased(key) => p.mode is Hold && crate::promises::holds(key),
        GestureView::Active { modifier_held } => p.mode is Hold && !p.activated && !modifier_held,
        _ => false,
    }
}

/// Whether the panel is down and everything of the showing is forgotten but the
/// rows.
pub open spec fn is_put_away(p: PanelView, q: PanelView) -> bool {
    &&& !q.visible
    &&& q.origin is None
    &&& q.previewed is None
    &&& q.pending is None
    &&& !q.hover_armed
    &&& q.shown_at is None
    &&& q.rendered == p.rendered
    &&& q.pointer_moved == p.pointer_moved
    &&& q.position == p.position
    &&& q.thumb_width == p.thumb_width
    &&& q.close_on_select == p.close_on_select
    &&& q.mode == p.mode
}

/// A choice of the selection takes the panel down first, as a choice, and then
/// switches: to what is pending, by its number, whatever is being previewed;
/// with nothing pending to what is previewed, by the number of its row; not at
/// all if that is the origin.
pub proof fn law_a_choice_is_what_is_pending_else_previewed(
    p: PanelView,
    g: GestureView,
    now: u64,
    k: int,
)
    requires
        p.wf(),
        p.visible,
        chooses(p, g),
    ensures
        ({
            let (q, out) = p.gesture(g, now);
            let n = out.len();
            &&& is_put_away(p, q)
            &&& q.activated == (p.activated || g is Active)
            &&& p.pending matches Some(wanted) ==> n >= 2 && out[n - 2]
                == (PanelActionView::Hidden { committed: true }) && out[n - 1]
                == (PanelActionView::Switch { name: wanted.name, num: wanted.num })
            &&& p.pending is None && p.previewed == p.origin ==> n >= 1 && out[n - 1]
                == (PanelActionView::Hidden { committed: true })
            &&& p.pending is None && p.previewed != p.origin ==> {
                &&& n >= 2
                &&& out[n - 2] == (PanelActionView::Hidden { committed: true })
                &&& out[n - 1] matches PanelActionView::Switch { name, num } && p.previewed
                    == Some(name) && (is_first_row(p.rendered, k, name) ==> num
                    == p.rendered[k].num) && ((forall|j: int|
                    0 <= j < p.rendered.len() ==> (#[trigger] p.rendered[j]).name != name)
                    ==> num is None)
            }
            &&& forall|j: int|
                0 <= j < n - 2 ==> !(#[trigger] out[j] is Switch || out[j] is Preview
                    || out[j] is Hidden)
            &&& p.pending is Some ==> out[0] is StopDebounce
        }),
{
    if let Some(n) = p.previewed {
        crate::lists::lemma_position(p.rendered, crate::panel::row_named(n));
        if is_first_row(p.rendered, k, n) {
            lemma_first_row(p.rendered, k, n);
        }
    }
}

/// A click on a row chooses it, by the number it was clicked with. If clicks
/// close the panel it goes down first, and the row that was the origin all
/// along is not switched to; if they do not, the row is the origin from then on
/// and the panel stays.
pub proof fn law_a_click_chooses_its_row(
    p: PanelView,
    name: Seq<char>,
    num: Option<i32>,
    now: u64,
)
    requires
        p.wf(),
        p.visible,
    ensures
        ({
            let (q, out) = p.gesture(GestureView::Click { name, num }, now);
            let n = out.len();
            let home = p.pending is None && p.previewed == Some(name) && p.origin == Some(name);
            &&& p.close_on_select ==> is_put_away(p, q)
            &&& p.close_on_select && home ==> n >= 1 && out[n - 1] == (PanelActionView::Hidden {
                committed: true,
            })
            &&& p.close_on_select && !home ==> n >= 2 && out[n - 2]
                == (PanelActionView::Hidden { committed: true }) && out[n - 1]
                == (PanelActionView::Switch { name, num })
            &&& !p.close_on_select ==> n >= 1 && out[n - 1] == (PanelActionView::Switch {
                name,
                num,
            }) && q == (PanelView {
                origin: Some(name),
                previewed: Some(name),
                pending: None,
                ..p
            })
            &&& !p.close_on_select ==> n >= 2 && out[n - 2] is Restyle && forall|j: int|
                0 <= j < n - 1 ==> !(#[trigger] out[j] is Switch || out[j] is Hidden)
            &&& !p.close_on_select && p.pending is Some ==> out[0] is StopDebounce
        }),
{
}

/// Escape, a click outside and no other key takes the panel down without a
/// choice: nothing is switched to.
pub proof fn law_escape_closes_without_a_choice(p: PanelView, g: GestureView, now: u64)
    requires
        p.wf(),
        p.visible,
        g == GestureView::KeyPressed(0xff1b) || g is ClickOutside,
    ensures
        ({
            let (q, out) = p.gesture(g, now);
            let n = out.len();
            &&& is_put_away(p, q)
            &&& q.activated == p.activated
            &&& n >= 2 && out[n - 1] == (PanelActionView::Hidden { committed: false })
            &&& out[n - 2] is Withdraw
            &&& forall|j: int|
                0 <= j < n - 1 ==> !(#[trigger] out[j] is Switch || out[j] is Preview
                    || out[j] is Hidden)
            &&& p.pending is Some ==> out[0] is StopDebounce
        }),
{
}

/// Every other key does nothing, pressed or let go; Shift in particular, which
/// is held for going backwards.
pub proof fn law_other_keys_do_nothing(p: PanelView, key: u32, now: u64)
    ensures
        key != 0xff1b && !crate::promises::enters(key) ==> p.gesture(
            GestureView::KeyPressed(key),
            now,
        ) == (p, Seq::<PanelActionView>::empty()),
        !(p.mode is Hold) || !crate::promises::holds(key) ==> p.gesture(
            GestureView::KeyReleased(key),
            now,
        ) == (p, Seq::<PanelActionView>::empty()),
        key == 0xffe1 || key == 0xffe2 ==> p.gesture(GestureView::KeyReleased(key), now) == (
            p,
            Seq::<PanelActionView>::empty(),
        ),
{
}

/// The window becoming active is noted, once in a showing, and is otherwise
/// nothing unless it chooses.
pub proof fn law_becoming_active_is_noted_once(p: PanelView, modifier_held: bool, now: u64)
    requires
        !chooses(p, GestureView::Active { modifier_held }) || !p.visible,
    ensures
        ({
            let (q, out) = p.gesture(GestureView::Active { modifier_held }, now);
            &&& out.len() == 0
            &&& q == (PanelView { activated: p.activated || p.visible, ..p })
        }),
{
}

// --------------------------------------------------- moving the selection --

/// Whether the selection went to row `k`: a preview of it is pending, started
/// by no pointer, the row is brought into view, and what is shown is as before.
pub open spec fn went_to(
    p: PanelView,
    t: (PanelView, Seq<PanelActionView>),
    k: int,
) -> bool {
    let row = p.rendered[k];
    &&& t.0 == (PanelView {
        pending: Some(
            PendingView { name: row.name, num: row.num, source: PreviewSource::Wheel },
        ),
        hover_armed: false,
        ..p
    })
    &&& t.1 == (if p.pending is Some {
        seq![PanelActionView::StopDebounce]
    } else {
        seq![]
    }) + seq![PanelActionView::StartDebounce, PanelActionView::ScrollTo { row: k }]
}

/// The wheel moves the selection as many rows as it turned, and stops at the
/// first and the last row; where that is where it was, nothing happens.
pub proof fn law_the_wheel_moves_by_its_steps(
    p: PanelView,
    steps: i32,
    now: u64,
    from: int,
    to: int,
)
    requires
        p.wf(),
        p.shown_at matches Some(t) && now >= t + 150_000_000,
        is_selected(p, from),
        0 <= from < p.rendered.len(),
        0 <= to < p.rendered.len(),
        is_first_row(p.rendered, to, p.rendered[to].name),
        from + steps == to || (from + steps < 0 && to == 0) || (from + steps >= p.rendered.len()
            && to == p.rendered.len() - 1),
    ensures
        ({
            let t = p.gesture(GestureView::Wheel { steps }, now);
            &&& to == from ==> t == (p, Seq::<PanelActionView>::empty())
            &&& to != from ==> went_to(p, t, to)
        }),
{
    lemma_selected(p, from);
    lemma_first_row(p.rendered, to, p.rendered[to].name);
    let t = p.gesture(GestureView::Wheel { steps }, now);
    if to != from {
        assert(t.1 =~= (if p.pending is Some {
            seq![PanelActionView::StopDebounce]
        } else {
            seq![]
        }) + seq![PanelActionView::StartDebounce, PanelActionView::ScrollTo { row: to }]);
    }
}

/// An explicit step moves the selection that many rows, on from the last to the
/// first and back from the first to the last; where that is where it was,
/// nothing happens.
pub proof fn law_a_step_goes_round(p: PanelView, steps: i32, from: int, to: int)
    requires
        p.wf(),
        p.visible,
        is_selected(p, from),
        0 <= from < p.rendered.len(),
        0 <= to < p.rendered.len(),
        is_first_row(p.rendered, to, p.rendered[to].name),
        (from + steps - to) % (p.rendered.len() as int) == 0,
    ensures
        to == from ==> p.step(steps) == (p, Seq::<PanelActionView>::empty()),
        to != from ==> went_to(p, p.step(steps), to),
{
    lemma_selected(p, from);
    lemma_first_row(p.rendered, to, p.rendered[to].name);
    let len = p.rendered.len() as int;
    let d = (from + steps - to) / len;
    vstd::arithmetic::div_mod::lemma_fundamental_div_mod(from + steps - to, len);
    assert(len * d == d * len) by (nonlinear_arith);
    vstd::arithmetic::div_mod::lemma_fundamental_div_mod_converse(from + steps, len, d, to);
    if to != from {
        assert(p.step(steps).1 =~= (if p.pending is Some {
            seq![PanelActionView::StopDebounce]
        } else {
            seq![]
        }) + seq![PanelActionView::StartDebounce, PanelActionView::ScrollTo { row: to }]);
    }
}

/// A panel that is down or without rows is stepped through by nothing, and
/// within 150 milliseconds of its coming up the wheel and the pointer do
/// nothing.
pub proof fn law_the_wheel_waits_for_the_panel(
    p: PanelView,
    steps: i32,
    name: Seq<char>,
    num: Option<i32>,
    now: u64,
)
    requires
        p.wf(),
    ensures
        !p.visible || p.rendered.len() == 0 ==> p.step(steps) == (
            p,
            Seq::<PanelActionView>::empty(),
        ),
        (p.shown_at matches Some(t) ==> now < t + 150_000_000) ==> {
            &&& p.gesture(GestureView::Wheel { steps }, now) == (
                p,
                Seq::<PanelActionView>::empty(),
            )
            &&& p.gesture(GestureView::Motion { name, num }, now) == (
                p,
                Seq::<PanelActionView>::empty(),
            )
        },
        p.listens_to_the_wheel(now) <==> (p.shown_at matches Some(t) && now >= t + 150_000_000),
        p.rendered.len() == 0 ==> p.gesture(GestureView::Wheel { steps }, now) == (
            p,
            Seq::<PanelActionView>::empty(),
        ),
{
}

// ---------------------------------------------------------------- hovering --

/// Whether the pointer being on `name` was taken for hovering it: the row that
/// is shown already cancels a hover that is pending and no other preview; a row
/// whose hover is pending goes on waiting; any other row is waited for, in place
/// of whatever was pending.
pub open spec fn hovers(
    p: PanelView,
    q: PanelView,
    out: Seq<PanelActionView>,
    name: Seq<char>,
    num: Option<i32>,
) -> bool {
    let hovering = p.pending is Some && p.pending->0.source is Hover;
    &&& q == (PanelView {
        pending: q.pending,
        hover_armed: q.hover_armed,
        pointer_moved: q.pointer_moved,
        ..p
    })
    &&& p.previewed == Some(name) && hovering ==> q.pending is None && out == seq![
        PanelActionView::StopDebounce,
    ]
    &&& p.previewed == Some(name) && !hovering ==> q.pending == p.pending && out.len() == 0
    &&& p.previewed != Some(name) && hovering && p.pending->0.name == name ==> q.pending
        == p.pending && out.len() == 0
    &&& p.previewed != Some(name) && !(hovering && p.pending->0.name == name) ==> {
        &&& q.pending == Some(PendingView { name, num, source: PreviewSource::Hover })
        &&& out.last() is StartDebounce
        &&& p.pending is Some ==> out.len() == 2 && out[0] is StopDebounce
        &&& p.pending is None ==> out.len() == 1
    }
}

/// Once the panel has been up for 150 milliseconds the first motion on a row
/// arms hovering and every further one hovers that row.
pub proof fn law_motion_hovers_from_the_second_on(
    p: PanelView,
    name: Seq<char>,
    num: Option<i32>,
    now: u64,
)
    requires
        p.wf(),
        p.shown_at matches Some(t) && now >= t + 150_000_000,
    ensures
        ({
            let (q, out) = p.gesture(GestureView::Motion { name, num }, now);
            &&& q.hover_armed
            &&& q.pointer_moved
            &&& !p.pointer_moved ==> out.len() == 0 && q == (PanelView {
                hover_armed: true,
                pointer_moved: true,
                ..p
            })
            &&& p.pointer_moved ==> hovers(p, q, out, name, num)
        }),
{
}

/// Crossing into a row hovers it if hovering is armed, and is nothing if not.
pub proof fn law_entering_hovers_if_armed(
    p: PanelView,
    name: Seq<char>,
    num: Option<i32>,
    now: u64,
)
    requires
        p.wf(),
    ensures
        ({
            let (q, out) = p.gesture(GestureView::Enter { name, num }, now);
            &&& q.hover_armed == p.hover_armed
            &&& q.pointer_moved == p.pointer_moved
            &&& p.hover_armed ==> hovers(p, q, out, name, num)
            &&& !p.hover_armed ==> q == p && out.len() == 0
        }),
{
}

/// Leaving a row cancels the preview that the pointer started and nothing else.
pub proof fn law_leaving_cancels_what_the_pointer_started(p: PanelView, now: u64)
    ensures
        ({
            let (q, out) = p.gesture(GestureView::Leave, now);
            if p.pending is Some && p.pending->0.source is Hover {
                q == (PanelView { pending: None, ..p }) && out == seq![
                    PanelActionView::StopDebounce,
                ]
            } else {
                q == p && out.len() == 0
            }
        }),
{
}

/// When the debounce is over what was pending is previewed, by its name and
/// number, and nothing is pending any more.
pub proof fn law_what_was_pending_is_previewed(p: PanelView, now: u64)
    requires
        p.wf(),
    ensures
        ({
            let (q, out) = p.gesture(GestureView::DebounceElapsed, now);
            match p.pending {
                Some(wanted) => q == (PanelView {
                    pending: None,
                    previewed: Some(wanted.name),
                    ..p
                }) && out == seq![
                    PanelActionView::Restyle,
                    PanelActionView::Preview { name: wanted.name, num: wanted.num },
                ],
                None => q == p && out.len() == 0,
            }
        }),
{
}

// ----------------------------------------------------- rows and settings --

/// No gesture touches the rows or the settings.
pub proof fn law_gestures_leave_the_rows_alone(p: PanelView, g: GestureView, now: u64)
    ensures
        ({
            let q = p.gesture(g, now).0;
            &&& q.rendered == p.rendered
            &&& q.position == p.position
            &&& q.thumb_width == p.thumb_width
            &&& q.close_on_select == p.close_on_select
            &&& q.mode == p.mode
        }),
{
    match g {
        GestureView::Motion { name, num } => {},
        GestureView::Enter { name, num } => {},
        GestureView::Leave => {},
        GestureView::Wheel { steps } => {},
        GestureView::Click { name, num } => {},
        GestureView::ClickOutside => {},
        GestureView::KeyPressed(key) => {},
        GestureView::KeyReleased(key) => {},
        GestureView::Active { modifier_held } => {},
        GestureView::DebounceElapsed => {},
    }
}

/// The rows are the workspaces of that output, in the order of the snapshot:
/// every one of them and no other. What is selected stays, unless the rows had
/// to be made anew: then nothing is pending and hovering is to be armed again.
pub proof fn law_the_rows_are_the_workspaces_of_the_output(
    p: PanelView,
    snapshot: SnapshotView,
    output: Seq<char>,
)
    ensures
        ({
            let (q, out) = p.update(snapshot, output);
            let wanted = snapshot.workspaces.filter(|w: WorkspaceView| w.output == output);
            let kept = p.rendered == wanted || p.visible && crate::model::same_rows(
                p.rendered,
                wanted,
            );
            &&& q.rendered == wanted
            &&& out.len() >= 1 && out.last() is RefreshThumbs
            &&& out.contains(PanelActionView::Rebuild) <==> !kept
            &&& kept ==> q == (PanelView { rendered: wanted, ..p })
            &&& !kept ==> q == (PanelView {
                rendered: wanted,
                pending: None,
                hover_armed: false,
                ..p
            })
            &&& out.contains(PanelActionView::StopDebounce) <==> !kept && p.pending is Some
            &&& p.rendered != wanted && kept ==> out.contains(PanelActionView::Restyle)
        }),
{
    let (q, out) = p.update(snapshot, output);
    let on = |w: WorkspaceView| w.output == output;
    assert(on =~= crate::model::is_on(output));
    let wanted = snapshot.workspaces.filter(on);
    let kept = p.rendered == wanted || p.visible && crate::model::same_rows(p.rendered, wanted);
    if !kept {
        let n: int = if p.pending is Some {
            1
        } else {
            0
        };
        assert(out[n] is Rebuild);
        if p.pending is Some {
            assert(out[0] is StopDebounce);
        }
    } else if p.rendered != wanted {
        assert(out[0] is Restyle);
    }
}

/// A panel comes up on the origin: that is what is previewed, nothing is
/// pending, hovering is disarmed, and the grace period begins.
pub proof fn law_a_panel_comes_up_on_the_origin(
    p: PanelView,
    output: Seq<char>,
    origin: Option<Seq<char>>,
    now: u64,
)
    ensures
        ({
            let (q, out) = p.show(output, origin, now);
            &&& q.visible && q.shown_at == Some(now)
            &&& q.origin == origin && q.previewed == origin
            &&& q.pending is None && !q.hover_armed && !q.pointer_moved && !q.activated
            &&& q.rendered == p.rendered
            &&& q.position == p.position && q.thumb_width == p.thumb_width
            &&& q.close_on_select == p.close_on_select && q.mode == p.mode
            &&& out.last() == (PanelActionView::Present { output })
            &&& out[out.len() - 2] is Restyle
            &&& out.contains(PanelActionView::StopDebounce) <==> p.pending is Some
        }),
{
    let (q, out) = p.show(output, origin, now);
    if p.pending is Some {
        assert(out[0] is StopDebounce);
    }
}

/// A thumbnail goes on the rows of its workspace, on all of them and on no
/// other, from the top.
pub proof fn law_a_thumbnail_goes_on_its_rows(rows: Seq<WorkspaceView>, name: Seq<char>, k: int)
    ensures
        ({
            let out = crate::panel::thumbs_for(rows, name);
            &&& out.contains(PanelActionView::SetThumb { row: k }) <==> 0 <= k < rows.len()
                && rows[k].name == name
            &&& forall|i: int| 0 <= i < out.len() ==> #[trigger] out[i] is SetThumb
            &&& forall|i: int, j: int|
                0 <= i < j < out.len() ==> (#[trigger] out[i])->SetThumb_row < (
                #[trigger] out[j])->SetThumb_row
        }),
    decreases rows.len(),
{
    if rows.len() > 0 {
        let init = rows.drop_last();
        let last = rows.len() - 1;
        law_a_thumbnail_goes_on_its_rows(init, name, k);
        let before = crate::panel::thumbs_for(init, name);
        let out = crate::panel::thumbs_for(rows, name);
        let a = PanelActionView::SetThumb { row: k };
        assert forall|i: int| 0 <= i < before.len() implies (#[trigger] before[i])->SetThumb_row
            < last by {
            law_a_thumbnail_goes_on_its_rows(init, name, before[i]->SetThumb_row);
            assert(before[i] == (PanelActionView::SetThumb { row: before[i]->SetThumb_row }));
            assert(before.contains(before[i]));
        }
        if before.contains(a) {
            assert(out[before.index_of(a)] == a);
        }
        if rows.last().name == name {
            assert(out[before.len() as int] == (PanelActionView::SetThumb { row: last }));
        }
        if out.contains(a) && !before.contains(a) {
            let i = out.index_of(a);
            if i < before.len() {
                assert(before[i] == a);
            }
        }
    }
}

/// A new panel is down, without rows, and takes its settings from the
/// configuration, its thumbnails between 80 and 1000 wide.
pub proof fn law_a_new_panel_takes_its_settings(config: Config)
    ensures
        ({
            let p = PanelView::fresh(config);
            let w = config.thumbnail_width;
            &&& p.wf() && !p.visible && p.rendered.len() == 0
            &&& p.origin is None && p.previewed is None && p.pending is None
            &&& !p.activated && !p.pointer_moved
            &&& p.position == config.position
            &&& p.close_on_select == config.close_on_select
            &&& p.mode == config.mode
            &&& 80 <= w <= 1000 ==> p.thumb_width == w
            &&& w < 80 ==> p.thumb_width == 80
            &&& w > 1000 ==> p.thumb_width == 1000
        }),
{
}

/// While a panel is down, the focused marker is where sway's focus is.
pub proof fn law_the_marker_is_on_the_focus_while_down(p: PanelView, w: WorkspaceView)
    requires
        p.origin is None,
    ensures
        p.is_marked_focused(w) <==> w.focused,
        p.previewed is None ==> !p.is_marked_previewing(w),
{
}

} // verus!
