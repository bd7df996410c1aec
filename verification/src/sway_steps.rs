//! What a snapshot says of what sway reported, entry by entry.

use crate::model::{SnapshotView, WindowView, WorkspaceView};
use crate::sway::{SwayOutput, SwayWorkspace, TreeNode, WindowMap};
use vstd::prelude::*;

verus! {

// --------------------------------------------------------------- the focus --

/// The focused output is the first that sway says has the focus.
pub proof fn law_the_focused_output_is_the_one_with_the_focus(
    ws: Seq<SwayWorkspace>,
    tree: TreeNode,
    outputs: Seq<SwayOutput>,
    k: int,
)
    requires
        0 <= k < outputs.len(),
        outputs[k].focused,
        forall|j: int| 0 <= j < k ==> !(#[trigger] outputs[j]).focused,
    ensures
        crate::sway::snapshot_of(ws, tree, outputs).focused_output == outputs[k].name@,
{
    crate::lists::lemma_position_is(outputs, |o: SwayOutput| o.focused, k);
}

/// If sway says of no output that it has the focus, the focused output is that
/// of the first workspace that has it; without one it is the first output, and
/// without an output it is none.
pub proof fn law_the_focus_is_looked_for_elsewhere(
    ws: Seq<SwayWorkspace>,
    tree: TreeNode,
    outputs: Seq<SwayOutput>,
    k: int,
)
    requires
        forall|j: int| 0 <= j < outputs.len() ==> !(#[trigger] outputs[j]).focused,
    ensures
        ({
            let r = crate::sway::snapshot_of(ws, tree, outputs);
            &&& 0 <= k < r.workspaces.len() && r.workspaces[k].focused && (forall|j: int|
                0 <= j < k ==> !(#[trigger] r.workspaces[j]).focused) ==> r.focused_output
                == r.workspaces[k].output
            &&& (forall|j: int|
                0 <= j < r.workspaces.len() ==> !(#[trigger] r.workspaces[j]).focused) ==> {
                &&& outputs.len() > 0 ==> r.focused_output == outputs[0].name@
                &&& outputs.len() == 0 ==> r.focused_output.len() == 0
            }
        }),
{
    let r = crate::sway::snapshot_of(ws, tree, outputs);
    let f = |w: WorkspaceView| w.focused;
    crate::lists::lemma_position_none(outputs, |o: SwayOutput| o.focused);
    crate::lists::lemma_position(r.workspaces, f);
    if 0 <= k < r.workspaces.len() && f(r.workspaces[k]) && (forall|j: int|
        0 <= j < k ==> !(#[trigger] r.workspaces[j]).focused) {
        crate::lists::lemma_position_is(r.workspaces, f, k);
    }
}

// ---------------------------------------------------------- the workspaces --

/// Whether `v` says of a workspace what sway does: everything as it is, the
/// number unless it is negative.
pub open spec fn tells_of(v: WorkspaceView, w: SwayWorkspace) -> bool {
    &&& v.id == w.id
    &&& v.name == w.name@
    &&& v.output == w.output@
    &&& v.focused == w.focused
    &&& v.visible == w.visible
    &&& w.num >= 0 ==> v.num == Some(w.num)
    &&& w.num < 0 ==> v.num is None
}

/// Being no scratchpad.
pub open spec fn is_real(w: SwayWorkspace) -> bool {
    w.name@ != "__i3_scratch"@
}

/// Before they are sorted the workspaces are those sway listed, in its order, but
/// for the scratchpad.
pub proof fn law_workspaces_are_listed_in_the_order_of_sway(ws: Seq<SwayWorkspace>, m: WindowMap, k: int)
    ensures
        ({
            let infos = crate::sway::listed(ws, m).0;
            let kept = ws.filter(|w: SwayWorkspace| is_real(w));
            &&& infos.len() == kept.len()
            &&& 0 <= k < kept.len() ==> tells_of(infos[k], kept[k])
        }),
    decreases ws.len(),
{
    reveal(Seq::filter);
    if ws.len() > 0 {
        law_workspaces_are_listed_in_the_order_of_sway(ws.drop_last(), m, k);
    }
}

/// A snapshot holds every workspace sway listed but the scratchpad, each once,
/// and says of it what sway does.
pub proof fn law_a_snapshot_tells_of_every_workspace(
    ws: Seq<SwayWorkspace>,
    tree: TreeNode,
    outputs: Seq<SwayOutput>,
    k: int,
)
    ensures
        ({
            let r = crate::sway::snapshot_of(ws, tree, outputs).workspaces;
            &&& r.len() == ws.filter(|w: SwayWorkspace| is_real(w)).len()
            &&& 0 <= k < ws.len() && is_real(ws[k]) ==> exists|i: int|
                0 <= i < r.len() && tells_of(#[trigger] r[i], ws[k])
            &&& 0 <= k < r.len() ==> exists|i: int|
                0 <= i < ws.len() && is_real(#[trigger] ws[i]) && tells_of(r[k], ws[i])
        }),
{
    broadcast use vstd::seq_lib::group_to_multiset_ensures;

    let m = crate::sway::with_node(tree, Map::empty());
    let found = crate::sway::listed(ws, m).0;
    let r = crate::sway::in_order(outputs, found);
    let p = |w: SwayWorkspace| is_real(w);
    let kept = ws.filter(p);
    crate::sway::law_workspaces_come_out_in_order(outputs, found);
    assert(crate::sway::snapshot_of(ws, tree, outputs).workspaces == r);
    law_workspaces_are_listed_in_the_order_of_sway(ws, m, 0);
    if 0 <= k < ws.len() && is_real(ws[k]) {
        ws.lemma_filter_contains(p, k);
        let i = kept.index_of(ws[k]);
        law_workspaces_are_listed_in_the_order_of_sway(ws, m, i);
        assert(found.to_multiset().count(found[i]) > 0);
        assert(r.contains(found[i]));
        let j = r.index_of(found[i]);
        assert(0 <= j < r.len() && tells_of(r[j], ws[k]));
    }
    if 0 <= k < r.len() {
        assert(r.to_multiset().count(r[k]) > 0);
        assert(found.contains(r[k]));
        let i = found.index_of(r[k]);
        law_workspaces_are_listed_in_the_order_of_sway(ws, m, i);
        ws.lemma_filter_contains_rev(p, kept[i]);
        ws.lemma_filter_pred(p, i);
        let j = ws.index_of(kept[i]);
        assert(is_real(ws[j]) && tells_of(r[k], ws[j]));
    }
}

/// Whether sway lists an output of that name, for the first time at `k`.
pub open spec fn is_listed_at(outputs: Seq<SwayOutput>, k: int, name: Seq<char>) -> bool {
    &&& 0 <= k < outputs.len()
    &&& outputs[k].name@ == name
    &&& forall|j: int| 0 <= j < k ==> (#[trigger] outputs[j]).name@ != name
}

/// Whether sway lists no output of that name.
pub open spec fn is_not_listed(outputs: Seq<SwayOutput>, name: Seq<char>) -> bool {
    forall|j: int| 0 <= j < outputs.len() ==> (#[trigger] outputs[j]).name@ != name
}

/// The workspaces come output by output, in sway's order of the outputs, those
/// of an output that sway does not list last; on one output the numbered ones
/// come first, by their numbers.
pub proof fn law_the_workspaces_come_output_by_output(
    ws: Seq<SwayWorkspace>,
    tree: TreeNode,
    outputs: Seq<SwayOutput>,
    i: int,
    j: int,
    x: int,
    y: int,
)
    requires
        0 <= i < j < crate::sway::snapshot_of(ws, tree, outputs).workspaces.len(),
    ensures
        ({
            let r = crate::sway::snapshot_of(ws, tree, outputs).workspaces;
            let a = r[i];
            let b = r[j];
            &&& is_listed_at(outputs, x, a.output) && is_listed_at(outputs, y, b.output) ==> x
                <= y
            &&& is_listed_at(outputs, y, b.output) ==> !is_not_listed(outputs, a.output)
            &&& a.output == b.output && b.num is Some ==> a.num is Some && a.num->0 <= b.num->0
            &&& is_not_listed(outputs, a.output) && is_not_listed(outputs, b.output) && a.output
                != b.output ==> crate::text::text_before(a.output, b.output)
        }),
{
    let m = crate::sway::with_node(tree, Map::empty());
    let found = crate::sway::listed(ws, m).0;
    crate::sway::law_workspaces_come_out_in_order(outputs, found);
    let r = crate::sway::in_order(outputs, found);
    let a = r[i];
    let b = r[j];
    assert(crate::sway::may_precede(outputs, a, b));
    let pa = crate::sway::named(a.output);
    let pb = crate::sway::named(b.output);
    crate::lists::lemma_position(outputs, pa);
    crate::lists::lemma_position(outputs, pb);
    if is_listed_at(outputs, x, a.output) {
        crate::lists::lemma_position_is(outputs, pa, x);
    }
    if is_listed_at(outputs, y, b.output) {
        crate::lists::lemma_position_is(outputs, pb, y);
    }
    if is_not_listed(outputs, a.output) {
        crate::lists::lemma_position_none(outputs, pa);
    }
    if is_not_listed(outputs, b.output) {
        crate::lists::lemma_position_none(outputs, pb);
    }
    crate::text::lemma_text_order_is_total(a.output, b.output);
}

/// Workspaces of one output that carry the same number, or none, keep the order
/// in which sway lists them.
pub proof fn law_equal_workspaces_keep_their_order(
    ws: Seq<SwayWorkspace>,
    tree: TreeNode,
    outputs: Seq<SwayOutput>,
    output: Seq<char>,
    num: Option<i32>,
)
    ensures
        ({
            let alike = |v: WorkspaceView| v.output == output && v.num == num;
            crate::sway::snapshot_of(ws, tree, outputs).workspaces.filter(alike)
                == crate::sway::listed(
                ws,
                crate::sway::with_node(tree, Map::empty()),
            ).0.filter(alike)
        }),
{
    let alike = |v: WorkspaceView| v.output == output && v.num == num;
    let found = crate::sway::listed(ws, crate::sway::with_node(tree, Map::empty())).0;
    lemma_alike_keep_their_order(outputs, found, output, num);
}

proof fn lemma_alike_keep_their_order(
    outputs: Seq<SwayOutput>,
    s: Seq<WorkspaceView>,
    output: Seq<char>,
    num: Option<i32>,
)
    ensures
        ({
            let alike = |v: WorkspaceView| v.output == output && v.num == num;
            crate::sway::in_order(outputs, s).filter(alike) == s.filter(alike)
        }),
    decreases s.len(),
{
    let alike = |v: WorkspaceView| v.output == output && v.num == num;
    reveal(Seq::filter);
    if s.len() > 0 {
        let init = s.drop_last();
        lemma_alike_keep_their_order(outputs, init, output, num);
        let sorted = crate::sway::in_order(outputs, init);
        lemma_put_behind_alike(outputs, sorted, s.last(), output, num);
        assert(sorted.push(s.last()).drop_last() =~= sorted);
    } else {
        assert(crate::sway::in_order(outputs, s) =~= s);
    }
}

proof fn lemma_put_behind_alike(
    outputs: Seq<SwayOutput>,
    s: Seq<WorkspaceView>,
    w: WorkspaceView,
    output: Seq<char>,
    num: Option<i32>,
)
    ensures
        ({
            let alike = |v: WorkspaceView| v.output == output && v.num == num;
            crate::sway::put_in(outputs, s, w).filter(alike) == s.push(w).filter(alike)
        }),
    decreases s.len(),
{
    let alike = |v: WorkspaceView| v.output == output && v.num == num;
    if s.len() != 0 && crate::sway::belongs_before(outputs, w, s.last()) {
        let init = s.drop_last();
        let q = crate::sway::put_in(outputs, init, w);
        lemma_put_behind_alike(outputs, init, w, output, num);
        reveal_with_fuel(Seq::filter, 3);
        assert(q.push(s.last()).drop_last() =~= q);
        assert(s.push(w).drop_last() =~= s);
        assert(init.push(w).drop_last() =~= init);
        assert(!(alike(w) && alike(s.last())));
    }
}

// ------------------------------------------------------------- the windows --

/// Whether the node is a window: a container without children, floating or
/// not, that has a process, an identity or a title.
pub open spec fn is_window(n: TreeNode) -> bool {
    &&& n.kind is Con || n.kind is FloatingCon
    &&& n.nodes@.len() == 0 && n.floating_nodes@.len() == 0
    &&& n.pid is Some || n.app_id is Some || n.window_properties is Some || n.name is Some
}

/// Whether `v` says of a window what its node does: the title, or an empty one;
/// the wayland identity, else the X11 class, else none.
pub open spec fn tells_of_window(v: WindowView, n: TreeNode) -> bool {
    &&& v.id == n.id
    &&& v.focused == n.focused
    &&& match n.name {
        Some(t) => v.title == t@,
        None => v.title.len() == 0,
    }
    &&& match (n.app_id, n.window_properties) {
        (Some(a), _) => v.app_id == Some(a@),
        (None, Some(x)) => match x.class {
            Some(c) => v.app_id == Some(c@),
            None => v.app_id is None,
        },
        (None, None) => v.app_id is None,
    }
}

/// A window among the nodes is one window and is told of as its node says; any
/// other node among them stands for the windows below it.
pub proof fn law_a_leaf_is_one_window(n: TreeNode)
    ensures
        ({
            let r = crate::sway::windows_among(seq![n]);
            &&& is_window(n) ==> r.len() == 1 && tells_of_window(r[0], n)
            &&& !is_window(n) ==> r == crate::sway::windows_below(n)
        }),
{
    reveal_with_fuel(crate::sway::windows_among, 2);
    assert(seq![n].drop_last() =~= seq![]);
    let none: Seq<WindowView> = seq![];
    assert(none + crate::sway::windows_below(n) =~= crate::sway::windows_below(n));
}

/// The windows of nodes in a row come in a row.
pub proof fn law_windows_come_in_tree_order(a: Seq<TreeNode>, b: Seq<TreeNode>)
    ensures
        crate::sway::windows_among(a + b) == crate::sway::windows_among(a)
            + crate::sway::windows_among(b),
    decreases b.len(),
{
    if b.len() == 0 {
        assert(a + b =~= a);
        assert(crate::sway::windows_among(a) + crate::sway::windows_among(b)
            =~= crate::sway::windows_among(a));
    } else {
        assert((a + b).drop_last() =~= a + b.drop_last());
        law_windows_come_in_tree_order(a, b.drop_last());
        assert(crate::sway::windows_among(a + b) =~= crate::sway::windows_among(a)
            + crate::sway::windows_among(b));
    }
}

/// Below a node come the windows of its tiling children and then those of its
/// floating ones.
pub proof fn law_tiling_windows_come_first(n: TreeNode)
    ensures
        crate::sway::windows_below(n) == crate::sway::windows_among(n.nodes@ + n.floating_nodes@),
{
    law_windows_come_in_tree_order(n.nodes@, n.floating_nodes@);
}

/// Whether `w` is a workspace in the tree that starts at `n`, inside no other
/// workspace.
pub open spec fn has_workspace(n: TreeNode, w: TreeNode) -> bool
    decreases n,
{
    if n.kind is Workspace {
        n == w
    } else {
        some_has_workspace(n.nodes@, w) || some_has_workspace(n.floating_nodes@, w)
    }
}

/// Whether it is in one of these trees.
pub open spec fn some_has_workspace(s: Seq<TreeNode>, w: TreeNode) -> bool
    decreases s,
{
    s.len() > 0 && (has_workspace(s.last(), w) || some_has_workspace(s.drop_last(), w))
}

/// Whether the windows under `id` are those of a workspace that may be shown.
pub open spec fn are_of(m: WindowMap, id: i64, w: TreeNode) -> bool {
    w.id == id && (w.name matches Some(t) ==> t@ != "__i3_scratch"@) && m[id]
        == crate::sway::windows_below(w)
}

proof fn lemma_windows_of_node(n: TreeNode, m: WindowMap, id: i64)
    ensures
        ({
            let r = crate::sway::with_node(n, m);
            &&& r.dom().contains(id) ==> (m.dom().contains(id) && r[id] == m[id]) || exists|
                w: TreeNode,
            |
                #[trigger] has_workspace(n, w) && are_of(r, id, w)
            &&& m.dom().contains(id) ==> r.dom().contains(id)
            &&& forall|w: TreeNode|
                #[trigger] has_workspace(n, w) && w.id == id && (w.name matches Some(t) ==> t@
                    != "__i3_scratch"@) ==> r.dom().contains(id)
        }),
    decreases n,
{
    if n.kind is Workspace {
        let r = crate::sway::with_node(n, m);
        assert(has_workspace(n, n));
    } else {
        let m1 = crate::sway::with_nodes(n.nodes@, m);
        lemma_windows_of_nodes(n.nodes@, m, id);
        lemma_windows_of_nodes(n.floating_nodes@, m1, id);
        let r = crate::sway::with_node(n, m);
        if r.dom().contains(id) && !(m1.dom().contains(id) && r[id] == m1[id]) {
            let w = choose|w: TreeNode|
                #[trigger] some_has_workspace(n.floating_nodes@, w) && are_of(r, id, w);
            assert(has_workspace(n, w));
        } else if r.dom().contains(id) && !(m.dom().contains(id) && m1[id] == m[id]) {
            let w = choose|w: TreeNode|
                #[trigger] some_has_workspace(n.nodes@, w) && are_of(m1, id, w);
            assert(has_workspace(n, w) && are_of(r, id, w));
        }
        assert forall|w: TreeNode|
            #[trigger] has_workspace(n, w) && w.id == id && (w.name matches Some(t) ==> t@
                != "__i3_scratch"@) implies r.dom().contains(id) by {
            assert(some_has_workspace(n.nodes@, w) || some_has_workspace(n.floating_nodes@, w));
        }
    }
}

proof fn lemma_windows_of_nodes(s: Seq<TreeNode>, m: WindowMap, id: i64)
    ensures
        ({
            let r = crate::sway::with_nodes(s, m);
            &&& r.dom().contains(id) ==> (m.dom().contains(id) && r[id] == m[id]) || exists|
                w: TreeNode,
            |
                #[trigger] some_has_workspace(s, w) && are_of(r, id, w)
            &&& m.dom().contains(id) ==> r.dom().contains(id)
            &&& forall|w: TreeNode|
                #[trigger] some_has_workspace(s, w) && w.id == id && (w.name matches Some(t)
                    ==> t@ != "__i3_scratch"@) ==> r.dom().contains(id)
        }),
    decreases s,
{
    if s.len() > 0 {
        let init = s.drop_last();
        let m1 = crate::sway::with_nodes(init, m);
        lemma_windows_of_nodes(init, m, id);
        lemma_windows_of_node(s.last(), m1, id);
        let r = crate::sway::with_nodes(s, m);
        if r.dom().contains(id) && !(m1.dom().contains(id) && r[id] == m1[id]) {
            let w = choose|w: TreeNode|
                #[trigger] has_workspace(s.last(), w) && are_of(r, id, w);
            assert(some_has_workspace(s, w));
        } else if r.dom().contains(id) && !(m.dom().contains(id) && m1[id] == m[id]) {
            let w = choose|w: TreeNode|
                #[trigger] some_has_workspace(init, w) && are_of(m1, id, w);
            assert(some_has_workspace(s, w) && are_of(r, id, w));
        }
        assert forall|w: TreeNode|
            #[trigger] some_has_workspace(s, w) && w.id == id && (w.name matches Some(t) ==> t@
                != "__i3_scratch"@) implies r.dom().contains(id) by {
            assert(has_workspace(s.last(), w) || some_has_workspace(init, w));
        }
    }
}

/// The windows of a workspace are those below its node in the tree, wherever in
/// it that is; the scratchpad's are kept nowhere.
pub proof fn law_a_workspace_has_the_windows_below_it(tree: TreeNode, w: TreeNode)
    requires
        has_workspace(tree, w),
        w.name matches Some(t) ==> t@ != "__i3_scratch"@,
        forall|v: TreeNode|
            #[trigger] has_workspace(tree, v) && v.id == w.id ==> crate::sway::windows_below(v)
                == crate::sway::windows_below(w),
    ensures
        ({
            let r = crate::sway::with_node(tree, Map::empty());
            &&& r.dom().contains(w.id)
            &&& r[w.id] == crate::sway::windows_below(w)
        }),
{
    lemma_windows_of_node(tree, Map::empty(), w.id);
}

/// No windows are kept but those of a workspace in the tree that is not the
/// scratchpad.
pub proof fn law_only_workspaces_have_windows(tree: TreeNode, id: i64)
    requires
        forall|v: TreeNode|
            #[trigger] has_workspace(tree, v) && v.id == id ==> (v.name matches Some(t) && t@
                == "__i3_scratch"@),
    ensures
        !crate::sway::with_node(tree, Map::empty()).dom().contains(id),
{
    lemma_windows_of_node(tree, Map::empty(), id);
}

/// The first workspace sway lists under an id has the windows of the node of
/// that id, and none if there is no such node.
pub proof fn law_the_first_entry_gets_the_windows(ws: Seq<SwayWorkspace>, m: WindowMap, k: int)
    requires
        0 <= k < ws.len(),
        is_real(ws[k]),
        forall|j: int|
            0 <= j < k && is_real(#[trigger] ws[j]) ==> ws[j].id != ws[k].id,
    ensures
        exists|i: int|
            0 <= i < crate::sway::listed(ws, m).0.len() && tells_of(
                #[trigger] crate::sway::listed(ws, m).0[i],
                ws[k],
            ) && crate::sway::listed(ws, m).0[i].windows == (if m.dom().contains(ws[k].id) {
                m[ws[k].id]
            } else {
                seq![]
            }),
    decreases ws.len(),
{
    let init = ws.drop_last();
    let (infos, left) = crate::sway::listed(ws, m);
    let (before, rest) = crate::sway::listed(init, m);
    if k < init.len() {
        assert forall|j: int| 0 <= j < k && is_real(#[trigger] init[j]) implies init[j].id
            != init[k].id by {
            assert(init[j] == ws[j]);
        }
        law_the_first_entry_gets_the_windows(init, m, k);
        let i = choose|i: int|
            0 <= i < before.len() && tells_of(#[trigger] before[i], init[k]) && before[i].windows
                == (if m.dom().contains(ws[k].id) {
                m[ws[k].id]
            } else {
                seq![]
            });
        assert(infos[i] == before[i]);
    } else {
        lemma_unclaimed(init, m, ws[k].id);
        assert(tells_of(infos[infos.len() - 1], ws[k]));
    }
}

proof fn lemma_unclaimed(ws: Seq<SwayWorkspace>, m: WindowMap, id: i64)
    requires
        forall|j: int| 0 <= j < ws.len() && is_real(#[trigger] ws[j]) ==> ws[j].id != id,
    ensures
        ({
            let left = crate::sway::listed(ws, m).1;
            &&& left.dom().contains(id) <==> m.dom().contains(id)
            &&& m.dom().contains(id) ==> left[id] == m[id]
        }),
    decreases ws.len(),
{
    if ws.len() > 0 {
        let init = ws.drop_last();
        assert forall|j: int| 0 <= j < init.len() && is_real(#[trigger] init[j]) implies init[j].id
            != id by {
            assert(init[j] == ws[j]);
        }
        lemma_unclaimed(init, m, id);
        assert(ws[ws.len() - 1] == ws.last());
    }
}

/// In the snapshot, a workspace whose id no other has carries the windows that
/// are below its node in the tree.
pub proof fn law_a_snapshot_tells_of_the_windows(
    ws: Seq<SwayWorkspace>,
    tree: TreeNode,
    outputs: Seq<SwayOutput>,
    k: int,
    node: TreeNode,
)
    requires
        0 <= k < ws.len(),
        is_real(ws[k]),
        forall|j: int| 0 <= j < k && is_real(#[trigger] ws[j]) ==> ws[j].id != ws[k].id,
        has_workspace(tree, node),
        node.id == ws[k].id,
        node.name matches Some(t) ==> t@ != "__i3_scratch"@,
        forall|v: TreeNode|
            #[trigger] has_workspace(tree, v) && v.id == node.id ==> crate::sway::windows_below(v)
                == crate::sway::windows_below(node),
    ensures
        ({
            let r = crate::sway::snapshot_of(ws, tree, outputs).workspaces;
            exists|i: int|
                0 <= i < r.len() && tells_of(#[trigger] r[i], ws[k]) && r[i].windows
                    == crate::sway::windows_below(node)
        }),
{
    broadcast use vstd::seq_lib::group_to_multiset_ensures;

    let m = crate::sway::with_node(tree, Map::empty());
    law_a_workspace_has_the_windows_below_it(tree, node);
    law_the_first_entry_gets_the_windows(ws, m, k);
    let found = crate::sway::listed(ws, m).0;
    let i = choose|i: int|
        0 <= i < found.len() && tells_of(#[trigger] found[i], ws[k]) && found[i].windows
            == crate::sway::windows_below(node);
    crate::sway::law_workspaces_come_out_in_order(outputs, found);
    let r = crate::sway::in_order(outputs, found);
    assert(found.to_multiset().count(found[i]) > 0);
    assert(r.contains(found[i]));
    let j = r.index_of(found[i]);
    assert(crate::sway::snapshot_of(ws, tree, outputs).workspaces == r);
    assert(0 <= j < r.len() && tells_of(r[j], ws[k]));
}

// -------------------------------------------------------------- by output --

/// The workspaces of an output are all those on it, in their order, and the
/// visible one is the first of them that is shown.
pub proof fn law_a_snapshot_is_read_by_output(s: SnapshotView, output: Seq<char>, k: int)
    ensures
        s.on_output(output) == s.workspaces.filter(|w: WorkspaceView| w.output == output),
        0 <= k < s.workspaces.len() && s.workspaces[k].output == output && s.workspaces[k].visible
            && (forall|j: int|
            0 <= j < k ==> !((#[trigger] s.workspaces[j]).output == output
                && s.workspaces[j].visible)) ==> s.visible_on(output) == Some(s.workspaces[k]),
        (forall|j: int|
            0 <= j < s.workspaces.len() ==> !((#[trigger] s.workspaces[j]).output == output
                && s.workspaces[j].visible)) ==> s.visible_on(output) is None,
{
    let on = |w: WorkspaceView| w.output == output;
    assert(on =~= crate::model::is_on(output));
    let v = crate::model::is_visible_on(output);
    crate::lists::lemma_position(s.workspaces, v);
    if 0 <= k < s.workspaces.len() && v(s.workspaces[k]) && (forall|j: int|
        0 <= j < k ==> !((#[trigger] s.workspaces[j]).output == output
            && s.workspaces[j].visible)) {
        crate::lists::lemma_position_is(s.workspaces, v, k);
    }
}

/// Of two entries of one id only the first has the windows: a later one has
/// none.
pub proof fn law_a_later_entry_gets_no_windows(
    ws: Seq<SwayWorkspace>,
    m: WindowMap,
    j: int,
    k: int,
)
    requires
        0 <= j < k < ws.len(),
        is_real(ws[j]),
        is_real(ws[k]),
        ws[j].id == ws[k].id,
    ensures
        exists|i: int|
            0 <= i < crate::sway::listed(ws, m).0.len() && tells_of(
                #[trigger] crate::sway::listed(ws, m).0[i],
                ws[k],
            ) && crate::sway::listed(ws, m).0[i].windows.len() == 0,
    decreases ws.len(),
{
    let init = ws.drop_last();
    let (infos, left) = crate::sway::listed(ws, m);
    let (before, rest) = crate::sway::listed(init, m);
    if k < init.len() {
        law_a_later_entry_gets_no_windows(init, m, j, k);
        let i = choose|i: int|
            0 <= i < before.len() && tells_of(#[trigger] before[i], init[k])
                && before[i].windows.len() == 0;
        assert(infos[i] == before[i]);
    } else {
        lemma_claimed(init, m, j);
        assert(tells_of(infos[infos.len() - 1], ws[k]));
    }
}

proof fn lemma_claimed(ws: Seq<SwayWorkspace>, m: WindowMap, j: int)
    requires
        0 <= j < ws.len(),
        is_real(ws[j]),
    ensures
        !crate::sway::listed(ws, m).1.dom().contains(ws[j].id),
    decreases ws.len(),
{
    let init = ws.drop_last();
    if j < init.len() {
        lemma_claimed(init, m, j);
    }
}

} // verus!
