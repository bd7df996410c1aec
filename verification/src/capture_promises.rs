//! What can be relied on of the captures as a whole, whatever comes in.

use crate::capture::{
    BufInfo, CaptureActionView, CaptureInputView, CaptureTurn, CaptureView, OutputView,
    PendingFrame, ShmBuffer,
};
use crate::model::CaptureReason;
use vstd::prelude::*;

verus! {

/// Whether no background capture is under way while captures are paused.
pub open spec fn is_quiet(c: CaptureView) -> bool {
    c.paused ==> forall|i: int|
        0 <= i < c.outputs.len() && (#[trigger] c.outputs[i]).pending is Some ==> !(
        c.outputs[i].pending->0.reason is Background)
}

proof fn lemma_dropping_is_thorough(c: CaptureView, n: nat, i: int)
    requires
        n <= c.outputs.len(),
        0 <= i < c.outputs.len(),
    ensures
        c.drop_background(n).0.outputs.len() == c.outputs.len(),
        c.drop_background(n).0.paused == c.paused,
        i < n && c.drop_background(n).0.outputs[i].pending is Some ==> !(c.drop_background(
            n,
        ).0.outputs[i].pending->0.reason is Background),
        i >= n ==> c.drop_background(n).0.outputs[i] == c.outputs[i],
    decreases n,
{
    if n > 0 {
        lemma_dropping_is_thorough(c, (n - 1) as nat, i);
        lemma_dropping_is_thorough(c, (n - 1) as nat, n - 1);
    }
}

proof fn lemma_with_output_stays_quiet(c: CaptureView, i: int, o: OutputView)
    requires
        is_quiet(c),
        0 <= i < c.outputs.len(),
        o.pending matches Some(p) ==> !(p.reason is Background) || (c.outputs[i].pending is Some
            && p.reason == c.outputs[i].pending->0.reason),
    ensures
        is_quiet(c.with_output(i, o)),
{
}

proof fn lemma_copying_stays_quiet(c: CaptureView, i: int, now: u64)
    requires
        is_quiet(c),
        0 <= i < c.outputs.len(),
    ensures
        is_quiet(c.begin_copy(i, now).0),
{
    let o = c.outputs[i];
    if let Some(p) = o.pending {
        if let Some(b) = o.buffer {
            let copied = OutputView {
                buffer: Some(ShmBuffer { released: false, ..b }),
                pending: Some(PendingFrame { copying: true, ..p }),
                ..o
            };
            lemma_with_output_stays_quiet(c, i, copied);
        }
        let bare = OutputView { buffer: None, ..o };
        lemma_with_output_stays_quiet(c, i, bare);
        let failed = OutputView { pending: None, next_due: c.due_after(now), ..o };
        lemma_with_output_stays_quiet(c, i, failed);
        lemma_with_output_stays_quiet(
            c.with_output(i, bare),
            i,
            OutputView { pending: None, next_due: c.due_after(now), ..bare },
        );
    }
}

proof fn lemma_frame_inputs_stay_quiet(c: CaptureView, input: CaptureInputView, frame: u64, now: u64)
    requires
        is_quiet(c),
        match input {
            CaptureInputView::Buffer { frame: f, info } => f == frame,
            CaptureInputView::BufferDone { frame: f } => f == frame,
            CaptureInputView::Flags { frame: f, flags } => f == frame,
            CaptureInputView::Failed { frame: f } => f == frame,
            CaptureInputView::Allocated { frame: f } => f == frame,
            CaptureInputView::AllocationFailed { frame: f, error } => f == frame,
            _ => false,
        },
    ensures
        is_quiet(c.handle(input, now).0),
{
    crate::lists::lemma_position(c.outputs, crate::capture::awaits_frame(frame));
    if let Some(i) = c.by_frame(frame) {
        let o = c.outputs[i];
        let p = o.pending->0;
        lemma_copying_stays_quiet(c, i, now);
        lemma_with_output_stays_quiet(
            c,
            i,
            OutputView { pending: None, next_due: c.due_after(now), ..o },
        );
        match input {
            CaptureInputView::Buffer { frame: f, info } => {
                let q = OutputView {
                    pending: Some(PendingFrame { info: Some(info), ..p }),
                    ..o
                };
                lemma_with_output_stays_quiet(c, i, q);
                lemma_copying_stays_quiet(c.with_output(i, q), i, now);
            },
            CaptureInputView::Flags { frame: f, flags } => {
                let q = PendingFrame { y_invert: flags % 2 == 1, ..p };
                lemma_with_output_stays_quiet(c, i, OutputView { pending: Some(q), ..o });
            },
            CaptureInputView::Allocated { frame: f } => {
                if p.info is Some {
                    let b = ShmBuffer { tag: frame, info: p.info->0, released: false };
                    let q = PendingFrame { copying: true, ..p };
                    lemma_with_output_stays_quiet(
                        c,
                        i,
                        OutputView { buffer: Some(b), pending: Some(q), ..o },
                    );
                }
            },
            _ => {},
        }
    }
}

proof fn lemma_output_inputs_stay_quiet(c: CaptureView, input: CaptureInputView, now: u64)
    requires
        is_quiet(c),
        input is GlobalRemove || input is OutputName || input is Released,
    ensures
        is_quiet(c.handle(input, now).0),
{
    match input {
        CaptureInputView::GlobalRemove { name } => {
            crate::lists::lemma_position(c.outputs, crate::capture::has_global(name));
            if let Some(i) = crate::lists::position(c.outputs, crate::capture::has_global(name)) {
                let c2 = c.drop_pending(i).0;
                lemma_with_output_stays_quiet(c, i, OutputView { pending: None, ..c.outputs[i] });
                let rest = c2.outputs.remove(i);
                assert forall|k: int| 0 <= k < rest.len() implies #[trigger] rest[k]
                    == c2.outputs[if k < i {
                    k
                } else {
                    k + 1
                }] by {}
            }
        },
        CaptureInputView::OutputName { global, name } => {
            crate::lists::lemma_position(c.outputs, crate::capture::has_global(global));
        },
        CaptureInputView::Released { tag } => {
            crate::lists::lemma_position(c.outputs, crate::capture::owns_buffer(tag));
            if let Some(i) = crate::lists::position(c.outputs, crate::capture::owns_buffer(tag)) {
                let o = c.outputs[i];
                let b = ShmBuffer { released: true, ..o.buffer->0 };
                lemma_with_output_stays_quiet(c, i, OutputView { buffer: Some(b), ..o });
            }
        },
        _ => {},
    }
}

/// While captures are paused no background capture is under way: pausing ends
/// those there are, and nothing but a request starts another. So a panel that
/// is up while captures are paused is in no background frame.
pub proof fn law_a_pause_is_quiet(c: CaptureView, input: CaptureInputView, now: u64)
    requires
        is_quiet(c),
        !(input matches CaptureInputView::Request { output, reason } && reason is Background),
    ensures
        is_quiet(c.handle(input, now).0),
        is_quiet(c.publish_outputs().0),
        c.paused ==> c.schedule(now) == (c, Seq::<CaptureActionView>::empty()),
{
    match input {
        CaptureInputView::Buffer { frame, info } => lemma_frame_inputs_stay_quiet(
            c,
            input,
            frame,
            now,
        ),
        CaptureInputView::BufferDone { frame } => lemma_frame_inputs_stay_quiet(
            c,
            input,
            frame,
            now,
        ),
        CaptureInputView::Flags { frame, flags } => lemma_frame_inputs_stay_quiet(
            c,
            input,
            frame,
            now,
        ),
        CaptureInputView::Failed { frame } => lemma_frame_inputs_stay_quiet(c, input, frame, now),
        CaptureInputView::Allocated { frame } => lemma_frame_inputs_stay_quiet(
            c,
            input,
            frame,
            now,
        ),
        CaptureInputView::AllocationFailed { frame, error } => lemma_frame_inputs_stay_quiet(
            c,
            input,
            frame,
            now,
        ),
        CaptureInputView::GlobalRemove { name } => lemma_output_inputs_stay_quiet(c, input, now),
        CaptureInputView::OutputName { global, name } => lemma_output_inputs_stay_quiet(
            c,
            input,
            now,
        ),
        CaptureInputView::Released { tag } => lemma_output_inputs_stay_quiet(c, input, now),
        CaptureInputView::Request { output, reason } => {
            crate::lists::lemma_position(c.outputs, crate::capture::is_called(output));
        },
        CaptureInputView::SetPaused(paused) => {
            let c2 = CaptureView { paused, ..c };
            let n = c.outputs.len();
            assert forall|i: int|
                0 <= i < n && (#[trigger] c2.drop_background(n).0.outputs[i]).pending is Some
                    && paused implies !(c2.drop_background(n).0.outputs[i].pending->0.reason is Background) by {
                lemma_dropping_is_thorough(c2, n, i);
            }
            if n > 0 {
                lemma_dropping_is_thorough(c2, n, 0);
            }
        },
        _ => {},
    }
}

/// A request goes ahead of the throttle and of the pause: the output's capture
/// is the requested one, whatever was under way and whenever the next is due.
pub proof fn law_a_request_goes_ahead(c: CaptureView, i: int, output: Seq<char>, reason: CaptureReason)
    requires
        c.manager,
        c.has_numbers(),
        crate::lists::position(c.outputs, crate::capture::is_called(output)) == Some(i),
    ensures
        ({
            let r = c.on_request(output, reason);
            &&& r.0.outputs[i].pending matches Some(p) && p.reason == reason && p.id
                == c.next_frame_id
            &&& r.1.last() == (CaptureActionView::CaptureOutput {
                global: c.outputs[i].global,
                frame: c.next_frame_id,
            })
        }),
{
    crate::lists::lemma_position(c.outputs, crate::capture::is_called(output));
}

/// Background captures of one output are spaced out: after one has ended, well
/// or not, none is started for the least interval.
pub proof fn law_background_captures_are_throttled(
    c: CaptureView,
    frame: u64,
    pixels: Seq<u8>,
    now: u64,
    later: u64,
    i: int,
)
    requires
        c.by_frame(frame) == Some(i),
        later < now + c.min_interval,
    ensures
        !CaptureView::is_due(c.on_ready(frame, pixels, now).0.outputs[i], later),
        !CaptureView::is_due(c.on_failed(frame, now).0.outputs[i], later),
{
    crate::lists::lemma_position(c.outputs, crate::capture::awaits_frame(frame));
}

/// What is said of a frame nobody waits for any more, because captures were
/// paused, it was superseded or its output is gone, is ignored.
pub proof fn law_stale_frames_are_ignored(
    c: CaptureView,
    frame: u64,
    info: BufInfo,
    flags: u32,
    pixels: Seq<u8>,
    now: u64,
)
    requires
        c.by_frame(frame) is None,
    ensures
        c.on_buffer(frame, info, now) == (c, Seq::<CaptureActionView>::empty()),
        c.on_buffer_done(frame, now) == (c, Seq::<CaptureActionView>::empty()),
        c.on_flags(frame, flags) == (c, Seq::<CaptureActionView>::empty()),
        c.on_failed(frame, now) == (c, Seq::<CaptureActionView>::empty()),
        c.on_ready(frame, pixels, now) == (c, Seq::<CaptureActionView>::empty()),
{
}

/// The names of these outputs, as far as they have one.
pub open spec fn names_in(outputs: Seq<OutputView>) -> Seq<Seq<char>>
    decreases outputs.len(),
{
    if outputs.len() == 0 {
        seq![]
    } else {
        match outputs.last().name {
            Some(n) => names_in(outputs.drop_last()).push(n),
            None => names_in(outputs.drop_last()),
        }
    }
}

proof fn lemma_put_text_sorts(s: Seq<Seq<char>>, t: Seq<char>)
    requires
        forall|i: int, j: int|
            0 <= i < j < s.len() ==> !crate::text::text_before(#[trigger] s[j], #[trigger] s[i]),
    ensures
        crate::capture::put_text(s, t).len() == s.len() + 1,
        crate::capture::put_text(s, t).to_multiset() == s.to_multiset().insert(t),
        forall|i: int| 0 <= i < s.len() + 1 ==> #[trigger] crate::capture::put_text(s, t)[i] == t || s.contains(
            crate::capture::put_text(s, t)[i],
        ),
        forall|i: int, j: int|
            0 <= i < j < s.len() + 1 ==> !crate::text::text_before(
                #[trigger] crate::capture::put_text(s, t)[j],
                #[trigger] crate::capture::put_text(s, t)[i],
            ),
    decreases s.len(),
{
    broadcast use vstd::seq_lib::group_to_multiset_ensures;

    let r = crate::capture::put_text(s, t);
    if s.len() == 0 || !crate::text::text_before(t, s.last()) {
        assert forall|i: int, j: int| 0 <= i < j < r.len() implies !crate::text::text_before(
            #[trigger] r[j],
            #[trigger] r[i],
        ) by {
            if j == s.len() && crate::text::text_before(t, s[i]) {
                // `t` before `s[i]`, which is not after the last.
                let last = s.len() - 1;
                assert(i == last || !crate::text::text_before(s[last], s[i]));
                crate::text::lemma_text_order_is_total(s[i], s[last]);
                if crate::text::text_before(s[i], s[last]) {
                    crate::text::lemma_text_order_is_transitive(t, s[i], s[last]);
                }
            }
        }
    } else {
        let init = s.drop_last();
        let q = crate::capture::put_text(init, t);
        lemma_put_text_sorts(init, t);
        crate::text::lemma_text_order_is_strict(t, s.last());
        assert forall|i: int, j: int| 0 <= i < j < r.len() implies !crate::text::text_before(
            #[trigger] r[j],
            #[trigger] r[i],
        ) by {
            if j == s.len() {
                if q[i] != t {
                    let k = init.index_of(q[i]);
                    assert(s[k] == q[i]);
                    assert(!crate::text::text_before(s[s.len() - 1], s[k]));
                }
            } else {
                assert(r[i] == q[i] && r[j] == q[j]);
            }
        }
        assert forall|i: int| 0 <= i < r.len() implies #[trigger] r[i] == t || s.contains(r[i]) by {
            if i == s.len() {
                assert(r[i] == s[s.len() - 1]);
            } else {
                assert(r[i] == q[i]);
                if q[i] != t {
                    let k = init.index_of(q[i]);
                    assert(s[k] == q[i]);
                }
            }
        }
        assert(init.push(s.last()) =~= s);
        assert(s.to_multiset() =~= init.to_multiset().insert(s.last()));
        assert(r.to_multiset() =~= q.to_multiset().insert(s.last()));
    }
}

/// The outputs are reported in the order of their names, each of them once.
pub proof fn law_outputs_are_reported_sorted(outputs: Seq<OutputView>)
    ensures
        crate::capture::sorted_names(outputs).len() == names_in(outputs).len(),
        crate::capture::sorted_names(outputs).to_multiset() == names_in(outputs).to_multiset(),
        forall|i: int, j: int|
            0 <= i < j < crate::capture::sorted_names(outputs).len() ==> !crate::text::text_before(
                #[trigger] crate::capture::sorted_names(outputs)[j],
                #[trigger] crate::capture::sorted_names(outputs)[i],
            ),
    decreases outputs.len(),
{
    broadcast use vstd::seq_lib::group_to_multiset_ensures;

    if outputs.len() > 0 {
        let init = outputs.drop_last();
        law_outputs_are_reported_sorted(init);
        if let Some(n) = outputs.last().name {
            lemma_put_text_sorts(crate::capture::sorted_names(init), n);
        }
    }
}

/// The frames the compositor works on after these actions.
pub open spec fn frames_after(live: Set<u64>, actions: Seq<CaptureActionView>) -> Set<u64>
    decreases actions.len(),
{
    if actions.len() == 0 {
        live
    } else {
        let before = frames_after(live, actions.drop_last());
        match actions.last() {
            CaptureActionView::CaptureOutput { global, frame } => before.insert(frame),
            CaptureActionView::DestroyFrame { frame } => before.remove(frame),
            _ => before,
        }
    }
}

/// The frames some output waits for.
pub open spec fn waited_for(c: CaptureView) -> Set<u64> {
    Set::new(
        |id: u64|
            exists|i: int| 0 <= i < c.outputs.len() && crate::capture::awaits_frame(id)(#[trigger] c.outputs[i]),
    )
}

proof fn lemma_frames_sum(live: Set<u64>, a: Seq<CaptureActionView>, b: Seq<CaptureActionView>)
    ensures
        frames_after(live, a + b) == frames_after(frames_after(live, a), b),
    decreases b.len(),
{
    if b.len() == 0 {
        assert(a + b =~= a);
    } else {
        assert((a + b).drop_last() =~= a + b.drop_last());
        lemma_frames_sum(live, a, b.drop_last());
    }
}

proof fn lemma_frames_push(live: Set<u64>, a: Seq<CaptureActionView>, x: CaptureActionView)
    ensures
        frames_after(live, a.push(x)) == match x {
            CaptureActionView::CaptureOutput { global, frame } => frames_after(live, a).insert(
                frame,
            ),
            CaptureActionView::DestroyFrame { frame } => frames_after(live, a).remove(frame),
            _ => frames_after(live, a),
        },
{
    assert(a.push(x).drop_last() =~= a);
}

/// An output going on waiting for what it waited for.
proof fn lemma_waiting_on(c: CaptureView, i: int, o: OutputView)
    requires
        0 <= i < c.outputs.len(),
        o.pending is Some <==> c.outputs[i].pending is Some,
        o.pending is Some ==> o.pending->0.id == c.outputs[i].pending->0.id,
    ensures
        waited_for(c.with_output(i, o)) =~= waited_for(c),
{
    let d = c.with_output(i, o);
    assert forall|id: u64| waited_for(c).contains(id) <==> waited_for(d).contains(id) by {
        if waited_for(c).contains(id) {
            let k = choose|k: int|
                0 <= k < c.outputs.len() && crate::capture::awaits_frame(id)(#[trigger] c.outputs[k]);
            assert(crate::capture::awaits_frame(id)(d.outputs[k]));
        }
        if waited_for(d).contains(id) {
            let k = choose|k: int|
                0 <= k < d.outputs.len() && crate::capture::awaits_frame(id)(#[trigger] d.outputs[k]);
            assert(crate::capture::awaits_frame(id)(c.outputs[k]));
        }
    }
}

/// An output waiting no more.
proof fn lemma_waiting_no_more(c: CaptureView, i: int, o: OutputView)
    requires
        c.wf(),
        0 <= i < c.outputs.len(),
        c.outputs[i].pending is Some,
        o.pending is None,
    ensures
        waited_for(c.with_output(i, o)) =~= waited_for(c).remove(c.outputs[i].pending->0.id),
{
    let d = c.with_output(i, o);
    let gone = c.outputs[i].pending->0.id;
    assert forall|id: u64| waited_for(c).remove(gone).contains(id) <==> waited_for(d).contains(
        id,
    ) by {
        if waited_for(c).contains(id) && id != gone {
            let k = choose|k: int|
                0 <= k < c.outputs.len() && crate::capture::awaits_frame(id)(#[trigger] c.outputs[k]);
            assert(crate::capture::awaits_frame(id)(d.outputs[k]));
        }
        if waited_for(d).contains(id) {
            let k = choose|k: int|
                0 <= k < d.outputs.len() && crate::capture::awaits_frame(id)(#[trigger] d.outputs[k]);
            assert(crate::capture::awaits_frame(id)(c.outputs[k]));
            if k < i {
                assert(c.outputs[k].pending->0.id != c.outputs[i].pending->0.id);
            } else {
                assert(c.outputs[i].pending->0.id != c.outputs[k].pending->0.id);
            }
        }
    }
}

/// An output beginning to wait.
proof fn lemma_waiting_anew(c: CaptureView, i: int, o: OutputView)
    requires
        0 <= i < c.outputs.len(),
        c.outputs[i].pending is None,
        o.pending is Some,
    ensures
        waited_for(c.with_output(i, o)) =~= waited_for(c).insert(o.pending->0.id),
{
    let d = c.with_output(i, o);
    let new = o.pending->0.id;
    assert forall|id: u64| waited_for(c).insert(new).contains(id) <==> waited_for(d).contains(
        id,
    ) by {
        if waited_for(c).contains(id) {
            let k = choose|k: int|
                0 <= k < c.outputs.len() && crate::capture::awaits_frame(id)(#[trigger] c.outputs[k]);
            assert(crate::capture::awaits_frame(id)(d.outputs[k]));
        }
        if id == new {
            assert(crate::capture::awaits_frame(id)(d.outputs[i]));
        }
        if waited_for(d).contains(id) {
            let k = choose|k: int|
                0 <= k < d.outputs.len() && crate::capture::awaits_frame(id)(#[trigger] d.outputs[k]);
            if k != i {
                assert(crate::capture::awaits_frame(id)(c.outputs[k]));
            }
        }
    }
}

/// Whether the compositor works on exactly the frames that are waited for
/// after a turn from `c`, if it did before.
pub open spec fn keeps_frames(c: CaptureView, t: CaptureTurn) -> bool {
    frames_after(waited_for(c), t.1) == waited_for(t.0)
}

proof fn lemma_drop_keeps_frames(c: CaptureView, i: int)
    requires
        c.wf(),
        0 <= i < c.outputs.len(),
    ensures
        keeps_frames(c, c.drop_pending(i)),
        c.drop_pending(i).0.wf(),
{
    if let Some(p) = c.outputs[i].pending {
        let o = OutputView { pending: None, ..c.outputs[i] };
        lemma_waiting_no_more(c, i, o);
        crate::capture::lemma_with_output_keeps_wf(c, i, o);
        lemma_frames_push(
            waited_for(c),
            seq![],
            CaptureActionView::DestroyFrame { frame: p.id },
        );
        assert(c.drop_pending(i).1 =~= Seq::<CaptureActionView>::empty().push(
            CaptureActionView::DestroyFrame { frame: p.id },
        ));
    }
}

proof fn lemma_start_keeps_frames(c: CaptureView, i: int, reason: CaptureReason)
    requires
        c.wf(),
        0 <= i < c.outputs.len(),
        c.next_frame_id < u64::MAX,
    ensures
        keeps_frames(c, c.start_capture(i, reason)),
{
    if c.manager {
        let (c1, out) = c.drop_pending(i);
        lemma_drop_keeps_frames(c, i);
        let r = c.start_capture(i, reason);
        let o = r.0.outputs[i];
        let c2 = c1.with_output(i, o);
        assert(c2.outputs =~= r.0.outputs);
        lemma_waiting_anew(c1, i, o);
        assert(waited_for(r.0) =~= waited_for(c2));
        lemma_frames_push(waited_for(c), out, r.1.last());
        assert(r.1 =~= out.push(r.1.last()));
    }
}

proof fn lemma_fail_keeps_frames(c: CaptureView, i: int, error: Seq<char>, now: u64)
    requires
        c.wf(),
        0 <= i < c.outputs.len(),
    ensures
        keeps_frames(c, c.fail(i, error, now)),
{
    if let Some(p) = c.outputs[i].pending {
        let o = OutputView { pending: None, next_due: c.due_after(now), ..c.outputs[i] };
        lemma_waiting_no_more(c, i, o);
        let out = c.fail(i, error, now).1;
        let first = Seq::<CaptureActionView>::empty().push(out[0]);
        lemma_frames_push(waited_for(c), seq![], out[0]);
        lemma_frames_push(waited_for(c), first, out[1]);
        assert(out =~= first.push(out[1]));
    }
}

proof fn lemma_copy_into_keeps_frames(c: CaptureView, i: int, b: ShmBuffer)
    requires
        0 <= i < c.outputs.len(),
        c.outputs[i].pending is Some,
    ensures
        keeps_frames(c, c.copy_into(i, b)),
{
    let r = c.copy_into(i, b);
    lemma_waiting_on(c, i, r.0.outputs[i]);
    assert(r.0.outputs =~= c.with_output(i, r.0.outputs[i]).outputs);
    lemma_frames_push(waited_for(c), seq![], r.1[0]);
    assert(r.1 =~= Seq::<CaptureActionView>::empty().push(r.1[0]));
}

proof fn lemma_asking_keeps_frames(c: CaptureView, i: int, now: u64)
    requires
        c.wf(),
        0 <= i < c.outputs.len(),
    ensures
        keeps_frames(c, c.ask_for_buffer(i, now)),
{
    let r = c.ask_for_buffer(i, now);
    lemma_fail_keeps_frames(c, i, "zero-sized capture buffer"@, now);
    let p = c.outputs[i].pending->0;
    let info = p.info->0;
    if !(info.stride == 0 || info.height == 0) {
        lemma_frames_push(waited_for(c), seq![], r.1[0]);
        assert(r.1 =~= Seq::<CaptureActionView>::empty().push(r.1[0]));
    }
}

proof fn lemma_begin_copy_keeps_frames(c: CaptureView, i: int, now: u64)
    requires
        c.wf(),
        0 <= i < c.outputs.len(),
    ensures
        keeps_frames(c, c.begin_copy(i, now)),
{
    let o = c.outputs[i];
    if o.pending is Some {
        match o.buffer {
            Some(b) => {
                lemma_copy_into_keeps_frames(c, i, b);
                let bare = OutputView { buffer: None, ..o };
                let c2 = c.with_output(i, bare);
                lemma_waiting_on(c, i, bare);
                crate::capture::lemma_with_output_keeps_wf(c, i, bare);
                lemma_asking_keeps_frames(c2, i, now);
                let first = seq![CaptureActionView::DropBuffer { tag: b.tag }];
                lemma_frames_push(waited_for(c), seq![], first[0]);
                assert(first =~= Seq::<CaptureActionView>::empty().push(first[0]));
                lemma_frames_sum(waited_for(c), first, c2.ask_for_buffer(i, now).1);
            },
            None => lemma_asking_keeps_frames(c, i, now),
        }
    }
}

proof fn lemma_frame_inputs_keep_frames(
    c: CaptureView,
    input: CaptureInputView,
    frame: u64,
    now: u64,
)
    requires
        c.wf(),
        match input {
            CaptureInputView::Buffer { frame: f, info } => f == frame,
            CaptureInputView::BufferDone { frame: f } => f == frame,
            CaptureInputView::Flags { frame: f, flags } => f == frame,
            CaptureInputView::Failed { frame: f } => f == frame,
            CaptureInputView::Allocated { frame: f } => f == frame,
            CaptureInputView::AllocationFailed { frame: f, error } => f == frame,
            _ => false,
        },
    ensures
        keeps_frames(c, c.handle(input, now)),
{
    crate::lists::lemma_position(c.outputs, crate::capture::awaits_frame(frame));
    let lone = CaptureActionView::DropBuffer { tag: frame };
    lemma_frames_push(waited_for(c), seq![], lone);
    assert(seq![lone] =~= Seq::<CaptureActionView>::empty().push(lone));
    if let Some(i) = c.by_frame(frame) {
        let o = c.outputs[i];
        let p = o.pending->0;
        match input {
            CaptureInputView::Buffer { frame: f, info } => {
                if crate::pixels::layout_of(info.format) is Some {
                    let q = OutputView {
                        pending: Some(PendingFrame { info: Some(info), ..p }),
                        ..o
                    };
                    lemma_waiting_on(c, i, q);
                    crate::capture::lemma_with_output_keeps_wf(c, i, q);
                    lemma_begin_copy_keeps_frames(c.with_output(i, q), i, now);
                    lemma_begin_copy_keeps_frames(c, i, now);
                }
            },
            CaptureInputView::BufferDone { frame: f } => {
                lemma_begin_copy_keeps_frames(c, i, now);
                lemma_fail_keeps_frames(
                    c,
                    i,
                    "compositor offered no supported shm format"@,
                    now,
                );
            },
            CaptureInputView::Flags { frame: f, flags } => {
                let q = PendingFrame { y_invert: flags % 2 == 1, ..p };
                lemma_waiting_on(c, i, OutputView { pending: Some(q), ..o });
            },
            CaptureInputView::Failed { frame: f } => lemma_fail_keeps_frames(
                c,
                i,
                "compositor reported frame copy failure"@,
                now,
            ),
            CaptureInputView::Allocated { frame: f } => {
                if p.info is Some {
                    lemma_copy_into_keeps_frames(
                        c,
                        i,
                        ShmBuffer { tag: frame, info: p.info->0, released: true },
                    );
                }
            },
            CaptureInputView::AllocationFailed { frame: f, error } => lemma_fail_keeps_frames(
                c,
                i,
                error,
                now,
            ),
            _ => {},
        }
    }
}

proof fn lemma_removal_keeps_frames(c: CaptureView, name: u32)
    requires
        c.wf(),
    ensures
        keeps_frames(c, c.on_global_remove(name)),
{
    crate::lists::lemma_position(c.outputs, crate::capture::has_global(name));
    if let Some(i) = crate::lists::position(c.outputs, crate::capture::has_global(name)) {
        let o = c.outputs[i];
        let (c1, out) = c.drop_pending(i);
        lemma_drop_keeps_frames(c, i);
        let r = c.on_global_remove(name);
        let released = out.push(CaptureActionView::ReleaseOutput { global: o.global });
        lemma_frames_push(
            waited_for(c),
            out,
            CaptureActionView::ReleaseOutput { global: o.global },
        );
        let last = CaptureView::buffer_drop(o);
        lemma_frames_sum(waited_for(c), released, last);
        if last.len() > 0 {
            lemma_frames_push(frames_after(waited_for(c), released), seq![], last[0]);
            assert(last =~= Seq::<CaptureActionView>::empty().push(last[0]));
        }
        assert forall|id: u64| waited_for(c1).contains(id) <==> waited_for(r.0).contains(id) by {
            if waited_for(c1).contains(id) {
                let k = choose|k: int|
                    0 <= k < c1.outputs.len() && crate::capture::awaits_frame(id)(#[trigger] c1.outputs[k]);
                let to = if k < i {
                    k
                } else {
                    k - 1
                };
                assert(r.0.outputs[to] == c1.outputs[k]);
            }
            if waited_for(r.0).contains(id) {
                let k = choose|k: int|
                    0 <= k < r.0.outputs.len() && crate::capture::awaits_frame(id)(#[trigger] r.0.outputs[k]);
                let to = if k < i {
                    k
                } else {
                    k + 1
                };
                assert(c1.outputs[to] == r.0.outputs[k]);
            }
        }
        assert(waited_for(c1) =~= waited_for(r.0));
    }
}

proof fn lemma_global_keeps_frames(
    c: CaptureView,
    name: u32,
    interface: Seq<char>,
    version: u32,
    now: u64,
)
    ensures
        keeps_frames(c, c.on_global(name, interface, version, now)),
{
    let r = c.on_global(name, interface, version, now);
    if r.1.len() > 0 {
        lemma_frames_push(waited_for(c), seq![], r.1[0]);
        assert(r.1 =~= Seq::<CaptureActionView>::empty().push(r.1[0]));
    }
    assert forall|id: u64| waited_for(c).contains(id) <==> waited_for(r.0).contains(id) by {
        if waited_for(c).contains(id) {
            let k = choose|k: int|
                0 <= k < c.outputs.len() && crate::capture::awaits_frame(id)(#[trigger] c.outputs[k]);
            assert(r.0.outputs[k] == c.outputs[k]);
        }
        if waited_for(r.0).contains(id) {
            let k = choose|k: int|
                0 <= k < r.0.outputs.len() && crate::capture::awaits_frame(id)(#[trigger] r.0.outputs[k]);
            assert(k < c.outputs.len());
            assert(r.0.outputs[k] == c.outputs[k]);
        }
    }
    assert(waited_for(c) =~= waited_for(r.0));
}

proof fn lemma_publishing_keeps_frames(c: CaptureView)
    ensures
        keeps_frames(c, c.publish_outputs()),
{
    let r = c.publish_outputs();
    if r.1.len() > 0 {
        lemma_frames_push(waited_for(c), seq![], r.1[0]);
        assert(r.1 =~= Seq::<CaptureActionView>::empty().push(r.1[0]));
    }
    assert(waited_for(c) =~= waited_for(r.0));
}

proof fn lemma_dropping_keeps_frames(c: CaptureView, n: nat)
    requires
        c.wf(),
        n <= c.outputs.len(),
    ensures
        keeps_frames(c, c.drop_background(n)),
    decreases n,
{
    if n > 0 {
        lemma_dropping_keeps_frames(c, (n - 1) as nat);
        crate::capture::lemma_dropping_keeps_wf(c, (n - 1) as nat);
        let (c1, out) = c.drop_background((n - 1) as nat);
        lemma_drop_keeps_frames(c1, n - 1);
        lemma_frames_sum(waited_for(c), out, c1.drop_pending(n - 1).1);
    }
}

proof fn lemma_pausing_keeps_frames(c: CaptureView, paused: bool, now: u64)
    requires
        c.wf(),
    ensures
        keeps_frames(c, c.set_paused(paused, now)),
{
    let c2 = CaptureView { paused, ..c };
    assert(waited_for(c2) =~= waited_for(c));
    lemma_dropping_keeps_frames(c2, c.outputs.len());
    let r = c.set_paused(paused, now);
    if c.paused && !paused {
        assert forall|id: u64| waited_for(c).contains(id) <==> waited_for(r.0).contains(id) by {
            if waited_for(c).contains(id) {
                let k = choose|k: int|
                    0 <= k < c.outputs.len() && crate::capture::awaits_frame(id)(#[trigger] c.outputs[k]);
                assert(crate::capture::awaits_frame(id)(r.0.outputs[k]));
            }
            if waited_for(r.0).contains(id) {
                let k = choose|k: int|
                    0 <= k < r.0.outputs.len() && crate::capture::awaits_frame(id)(#[trigger] r.0.outputs[k]);
                assert(crate::capture::awaits_frame(id)(c.outputs[k]));
            }
        }
        assert(waited_for(c) =~= waited_for(r.0));
    }
}

/// The compositor works on exactly the frames that are waited for: whatever
/// comes in, a frame that is given up is destroyed, and none is asked for that
/// nobody waits for.
pub proof fn law_no_frame_is_left_behind(c: CaptureView, input: CaptureInputView, now: u64)
    requires
        c.wf(),
        input is Request ==> c.has_numbers(),
    ensures
        keeps_frames(c, c.handle(input, now)),
{
    match input {
        CaptureInputView::Global { name, interface, version } => lemma_global_keeps_frames(
            c,
            name,
            interface,
            version,
            now,
        ),
        CaptureInputView::GlobalRemove { name } => lemma_removal_keeps_frames(c, name),
        CaptureInputView::OutputName { global, name } => {
            crate::lists::lemma_position(c.outputs, crate::capture::has_global(global));
            if let Some(i) = crate::lists::position(c.outputs, crate::capture::has_global(global)) {
                let o = OutputView { name: Some(name), ..c.outputs[i] };
                lemma_waiting_on(c, i, o);
                let r = c.on_output_name(global, name).0;
                if c.outputs[i].name != Some(name) {
                    assert(waited_for(r) =~= waited_for(c.with_output(i, o)));
                }
            }
        },
        CaptureInputView::OutputDone { global } => lemma_publishing_keeps_frames(c),
        CaptureInputView::Buffer { frame, info } => lemma_frame_inputs_keep_frames(
            c,
            input,
            frame,
            now,
        ),
        CaptureInputView::BufferDone { frame } => lemma_frame_inputs_keep_frames(
            c,
            input,
            frame,
            now,
        ),
        CaptureInputView::Flags { frame, flags } => lemma_frame_inputs_keep_frames(
            c,
            input,
            frame,
            now,
        ),
        CaptureInputView::Failed { frame } => lemma_frame_inputs_keep_frames(c, input, frame, now),
        CaptureInputView::Allocated { frame } => lemma_frame_inputs_keep_frames(
            c,
            input,
            frame,
            now,
        ),
        CaptureInputView::AllocationFailed { frame, error } => lemma_frame_inputs_keep_frames(
            c,
            input,
            frame,
            now,
        ),
        CaptureInputView::Released { tag } => {
            crate::lists::lemma_position(c.outputs, crate::capture::owns_buffer(tag));
            if let Some(i) = crate::lists::position(c.outputs, crate::capture::owns_buffer(tag)) {
                let o = c.outputs[i];
                let b = ShmBuffer { released: true, ..o.buffer->0 };
                lemma_waiting_on(c, i, OutputView { buffer: Some(b), ..o });
            }
        },
        CaptureInputView::Request { output, reason } => {
            crate::lists::lemma_position(c.outputs, crate::capture::is_called(output));
            match crate::lists::position(c.outputs, crate::capture::is_called(output)) {
                Some(i) => lemma_start_keeps_frames(c, i, reason),
                None => {
                    let r = c.on_request(output, reason);
                    lemma_frames_push(waited_for(c), seq![], r.1[0]);
                    assert(r.1 =~= Seq::<CaptureActionView>::empty().push(r.1[0]));
                },
            }
        },
        CaptureInputView::SetPaused(paused) => lemma_pausing_keeps_frames(c, paused, now),
        CaptureInputView::Shutdown => {
            assert(waited_for(CaptureView { running: false, ..c }) =~= waited_for(c));
        },
        CaptureInputView::ChannelClosed => {
            assert(waited_for(CaptureView { running: false, ..c }) =~= waited_for(c));
        },
    }
}

proof fn lemma_scheduling_keeps_frames(c: CaptureView, n: nat, now: u64)
    requires
        c.wf(),
        n <= c.outputs.len(),
        c.next_frame_id + n <= u64::MAX,
    ensures
        keeps_frames(c, c.schedule_first(n, now)),
    decreases n,
{
    if n > 0 {
        lemma_scheduling_keeps_frames(c, (n - 1) as nat, now);
        crate::capture::lemma_scheduling_keeps_wf(c, (n - 1) as nat, now);
        let (c1, out) = c.schedule_first((n - 1) as nat, now);
        lemma_start_keeps_frames(c1, n - 1, CaptureReason::Background);
        lemma_frames_sum(
            waited_for(c),
            out,
            c1.start_capture(n - 1, CaptureReason::Background).1,
        );
    }
}

/// The same for the captures that are started in the background, and for a
/// frame that is ready.
pub proof fn law_no_scheduled_frame_is_left_behind(
    c: CaptureView,
    frame: u64,
    pixels: Seq<u8>,
    now: u64,
)
    requires
        c.wf(),
        c.has_numbers(),
    ensures
        keeps_frames(c, c.schedule(now)),
        keeps_frames(c, c.on_ready(frame, pixels, now)),
{
    lemma_scheduling_keeps_frames(c, c.outputs.len(), now);
    crate::lists::lemma_position(c.outputs, crate::capture::awaits_frame(frame));
    if let Some(i) = c.by_frame(frame) {
        let o = OutputView { pending: None, next_due: c.due_after(now), ..c.outputs[i] };
        lemma_waiting_no_more(c, i, o);
        let out = c.on_ready(frame, pixels, now).1;
        let first = Seq::<CaptureActionView>::empty().push(out[0]);
        lemma_frames_push(waited_for(c), seq![], out[0]);
        lemma_frames_push(waited_for(c), first, out[1]);
        assert(out =~= first.push(out[1]));
    }
}

proof fn lemma_drop_all_keeps_frames(c: CaptureView, n: nat, i: int)
    requires
        c.wf(),
        n <= c.outputs.len(),
    ensures
        keeps_frames(c, c.drop_all(n)),
        c.drop_all(n).0.wf(),
        c.drop_all(n).0.outputs.len() == c.outputs.len(),
        0 <= i < n ==> c.drop_all(n).0.outputs[i].pending is None,
    decreases n,
{
    if n > 0 {
        lemma_drop_all_keeps_frames(c, (n - 1) as nat, i);
        let (c1, out) = c.drop_all((n - 1) as nat);
        lemma_drop_keeps_frames(c1, n - 1);
        lemma_frames_sum(waited_for(c), out, c1.drop_pending(n - 1).1);
    }
}

proof fn lemma_parting_destroys_no_frame(live: Set<u64>, outputs: Seq<OutputView>)
    ensures
        frames_after(live, CaptureView::parting(outputs)) == live,
    decreases outputs.len(),
{
    if outputs.len() > 0 {
        let init = CaptureView::parting(outputs.drop_last());
        let dropped = CaptureView::buffer_drop(outputs.last());
        let released = seq![
            CaptureActionView::ReleaseOutput { global: outputs.last().global },
        ];
        lemma_parting_destroys_no_frame(live, outputs.drop_last());
        lemma_frames_sum(live, init, dropped);
        lemma_frames_sum(live, init + dropped, released);
        if dropped.len() > 0 {
            lemma_frames_push(live, seq![], dropped[0]);
            assert(dropped =~= Seq::<CaptureActionView>::empty().push(dropped[0]));
        }
        lemma_frames_push(live, seq![], released[0]);
        assert(released =~= Seq::<CaptureActionView>::empty().push(released[0]));
    }
}

/// At the end the compositor works on nothing for us.
pub proof fn law_nothing_is_left_at_the_end(c: CaptureView)
    requires
        c.wf(),
    ensures
        frames_after(waited_for(c), c.tear_down()) =~= Set::empty(),
{
    let n = c.outputs.len();
    let (c1, out) = c.drop_all(n);
    let parted = CaptureView::parting(c.outputs);
    let last = if c.manager {
        seq![CaptureActionView::DestroyManager]
    } else {
        seq![]
    };
    lemma_drop_all_keeps_frames(c, n, 0);
    assert forall|id: u64| !waited_for(c1).contains(id) by {
        if waited_for(c1).contains(id) {
            let k = choose|k: int|
                0 <= k < c1.outputs.len() && crate::capture::awaits_frame(id)(#[trigger] c1.outputs[k]);
            lemma_drop_all_keeps_frames(c, n, k);
        }
    }
    assert(waited_for(c1) =~= Set::empty());
    lemma_frames_sum(waited_for(c), out, parted);
    lemma_parting_destroys_no_frame(waited_for(c1), c.outputs);
    lemma_frames_sum(waited_for(c), out + parted, last);
    if last.len() > 0 {
        lemma_frames_push(waited_for(c1), seq![], last[0]);
        assert(last =~= Seq::<CaptureActionView>::empty().push(last[0]));
    }
}

} // verus!
