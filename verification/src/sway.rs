//! What sway reports, and the snapshot built from it.

use crate::model::{Snapshot, SnapshotView, WindowInfo, WindowView, WorkspaceInfo, WorkspaceView};
use crate::text::{comes_before, same_text};
use std::collections::HashMap;
use vstd::prelude::*;

verus! {

broadcast use vstd::std_specs::hash::group_hash_axioms;

/// The i3-compatible scratchpad workspace, which sway exposes on the fake
/// `__i3` output. Never shown to the user.
pub const SCRATCH_WORKSPACE: &'static str = "__i3_scratch";

/// What a node of sway's layout tree is, as far as it matters here.
#[derive(Debug, Clone, Copy, PartialEq, Eq, Structural)]
pub enum NodeKind {
    Workspace,
    Con,
    FloatingCon,
    /// The root, an output, or anything else.
    Other,
}

/// The X11 properties of an xwayland window.
#[derive(Debug, PartialEq, Eq)]
pub struct XProperties {
    pub class: Option<String>,
}

/// One node of sway's layout tree.
#[derive(Debug)]
pub struct TreeNode {
    pub id: i64,
    pub name: Option<String>,
    pub kind: NodeKind,
    pub nodes: Vec<TreeNode>,
    pub floating_nodes: Vec<TreeNode>,
    pub pid: Option<i32>,
    pub app_id: Option<String>,
    pub window_properties: Option<XProperties>,
    pub focused: bool,
}

/// One entry of sway's workspace list.
#[derive(Debug, PartialEq, Eq)]
pub struct SwayWorkspace {
    pub id: i64,
    /// Negative for workspaces whose name does not start with a number.
    pub num: i32,
    pub name: String,
    pub output: String,
    pub focused: bool,
    pub visible: bool,
}

/// One entry of sway's output list.
#[derive(Debug, PartialEq, Eq)]
pub struct SwayOutput {
    pub name: String,
    pub focused: bool,
}

// ----------------------------------------------------------------- windows --

/// A leaf view: a `con`/`floating_con` with no children of its own that says
/// what it is in some way. Split containers have children.
pub open spec fn shows_a_window(n: TreeNode) -> bool {
    &&& n.kind is Con || n.kind is FloatingCon
    &&& n.nodes@.len() == 0
    &&& n.floating_nodes@.len() == 0
    &&& n.pid is Some || n.app_id is Some || n.window_properties is Some || n.name is Some
}

/// `app_id` for wayland views, the X11 class for xwayland ones.
pub open spec fn identity_of(n: TreeNode) -> Option<Seq<char>> {
    match n.app_id {
        Some(a) => Some(a@),
        None => match n.window_properties {
            Some(p) => p.class.deep_view(),
            None => None,
        },
    }
}

/// The window a leaf view stands for.
pub open spec fn window_of(n: TreeNode) -> WindowView {
    WindowView {
        id: n.id,
        title: match n.name {
            Some(t) => t@,
            None => seq![],
        },
        app_id: identity_of(n),
        focused: n.focused,
    }
}

/// The windows below `n`, depth first, tiling children before floating ones.
/// The node itself is never among them.
pub open spec fn windows_below(n: TreeNode) -> Seq<WindowView>
    decreases n,
{
    windows_among(n.nodes@) + windows_among(n.floating_nodes@)
}

/// The windows these nodes are or hold, in order.
pub open spec fn windows_among(s: Seq<TreeNode>) -> Seq<WindowView>
    decreases s,
{
    if s.len() == 0 {
        seq![]
    } else {
        let last = s.last();
        windows_among(s.drop_last()) + if shows_a_window(last) {
            seq![window_of(last)]
        } else {
            windows_below(last)
        }
    }
}

fn is_view(node: &TreeNode) -> (r: bool)
    ensures
        r == shows_a_window(*node),
{
    match node.kind {
        NodeKind::Con | NodeKind::FloatingCon => {},
        _ => {
            return false;
        },
    }
    if node.nodes.len() != 0 || node.floating_nodes.len() != 0 {
        return false;
    }
    node.pid.is_some() || node.app_id.is_some() || node.window_properties.is_some()
        || node.name.is_some()
}

fn app_id_of(node: &TreeNode) -> (r: Option<String>)
    ensures
        r.deep_view() == identity_of(*node),
{
    match &node.app_id {
        Some(a) => Some(a.clone()),
        None => match &node.window_properties {
            Some(p) => p.class.clone(),
            None => None,
        },
    }
}

/// Append the windows these nodes are or hold.
fn collect_among(nodes: &Vec<TreeNode>, out: &mut Vec<WindowInfo>)
    ensures
        final(out).deep_view() == old(out).deep_view() + windows_among(nodes@),
    decreases nodes@,
{
    assert(out.deep_view() + windows_among(nodes@.take(0)) =~= out.deep_view());
    for i in 0..nodes.len()
        invariant
            out.deep_view() == old(out).deep_view() + windows_among(nodes@.take(i as int)),
    {
        let child = &nodes[i];
        let ghost before = out.deep_view();
        assert(nodes@.take(i + 1).drop_last() =~= nodes@.take(i as int));
        assert(nodes@.take(i + 1).last() == child);
        if is_view(child) {
            out.push(
                WindowInfo {
                    id: child.id,
                    title: match &child.name {
                        Some(t) => t.clone(),
                        None => String::new(),
                    },
                    app_id: app_id_of(child),
                    focused: child.focused,
                },
            );
            assert(out.deep_view() =~= before + seq![window_of(*child)]);
        } else {
            assert(decreases_to!(nodes@ => nodes@[i as int]));
            collect_views(child, out);
        }
        assert(out.deep_view() =~= old(out).deep_view() + windows_among(nodes@.take(i + 1)));
    }
    assert(nodes@.take(nodes@.len() as int) =~= nodes@);
}

/// Append the windows below `node`: depth first, tiling children before
/// floating ones, sway's own tree order.
fn collect_views(node: &TreeNode, out: &mut Vec<WindowInfo>)
    ensures
        final(out).deep_view() == old(out).deep_view() + windows_below(*node),
    decreases node,
{
    collect_among(&node.nodes, out);
    collect_among(&node.floating_nodes, out);
    assert(out.deep_view() =~= old(out).deep_view() + windows_below(*node));
}

// ----------------------------------------------- the windows of workspaces --

/// The windows of every workspace, by the workspace's node id.
pub type WindowMap = Map<i64, Seq<WindowView>>;

/// `m` with the workspaces that `n` is or holds added. The scratchpad is left
/// out, and so is everything in it.
pub open spec fn with_node(n: TreeNode, m: WindowMap) -> WindowMap
    decreases n,
{
    if n.kind is Workspace {
        if n.name.deep_view() == Some(SCRATCH_WORKSPACE@) {
            m
        } else {
            m.insert(n.id, windows_below(n))
        }
    } else {
        with_nodes(n.floating_nodes@, with_nodes(n.nodes@, m))
    }
}

/// `m` with the workspaces that these nodes are or hold added, in order.
pub open spec fn with_nodes(s: Seq<TreeNode>, m: WindowMap) -> WindowMap
    decreases s,
{
    if s.len() == 0 {
        m
    } else {
        with_node(s.last(), with_nodes(s.drop_last(), m))
    }
}

/// A map of window lists, seen as a [`WindowMap`].
pub open spec fn window_map(m: Map<i64, Vec<WindowInfo>>) -> WindowMap {
    m.map_values(|v: Vec<WindowInfo>| v.deep_view())
}

fn collect_workspaces_among(nodes: &Vec<TreeNode>, map: &mut HashMap<i64, Vec<WindowInfo>>)
    ensures
        window_map(final(map)@) == with_nodes(nodes@, window_map(old(map)@)),
    decreases nodes@,
{
    assert(nodes@.take(0) =~= seq![]);
    for i in 0..nodes.len()
        invariant
            window_map(map@) == with_nodes(nodes@.take(i as int), window_map(old(map)@)),
    {
        assert(nodes@.take(i + 1).drop_last() =~= nodes@.take(i as int));
        assert(nodes@.take(i + 1).last() == nodes@[i as int]);
        assert(decreases_to!(nodes@ => nodes@[i as int]));
        collect_workspaces(&nodes[i], map);
    }
    assert(nodes@.take(nodes@.len() as int) =~= nodes@);
}

fn collect_workspaces(node: &TreeNode, map: &mut HashMap<i64, Vec<WindowInfo>>)
    ensures
        window_map(final(map)@) == with_node(*node, window_map(old(map)@)),
    decreases node,
{
    if let NodeKind::Workspace = node.kind {
        if let Some(name) = &node.name {
            if same_text(name, SCRATCH_WORKSPACE) {
                return;
            }
        }
        let mut views: Vec<WindowInfo> = Vec::new();
        assert(views.deep_view() =~= seq![]);
        collect_views(node, &mut views);
        assert(views.deep_view() =~= windows_below(*node));
        map.insert(node.id, views);
        assert(window_map(map@) =~= window_map(old(map)@).insert(node.id, windows_below(*node)));
        return;
    }
    collect_workspaces_among(&node.nodes, map);
    collect_workspaces_among(&node.floating_nodes, map);
}

/// Walk the tree once and collect the windows of every real workspace, keyed
/// by the workspace's node id.
pub fn windows_by_workspace(tree: &TreeNode) -> (r: HashMap<i64, Vec<WindowInfo>>)
    ensures
        window_map(r@) == with_node(*tree, Map::empty()),
{
    let mut map: HashMap<i64, Vec<WindowInfo>> = HashMap::new();
    assert(window_map(map@) =~= Map::empty());
    collect_workspaces(tree, &mut map);
    map
}

// ---------------------------------------------------------------- ordering --

/// Having the name `name`.
pub open spec fn named(name: Seq<char>) -> spec_fn(SwayOutput) -> bool {
    |o: SwayOutput| o.name@ == name
}

/// The place of an output in sway's list; one that is not listed comes after
/// all that are.
pub open spec fn rank(outputs: Seq<SwayOutput>, name: Seq<char>) -> int {
    match crate::lists::position(outputs, named(name)) {
        Some(i) => i,
        None => outputs.len() as int,
    }
}

/// Numbered workspaces ascending, then those without a number.
pub open spec fn number_before(a: Option<i32>, b: Option<i32>) -> bool {
    match (a, b) {
        (Some(x), Some(y)) => x < y,
        (Some(_), None) => true,
        _ => false,
    }
}

/// Whether workspace `a` belongs before `b`: outputs in sway's order, numbered
/// workspaces before named ones and ascending. Two workspaces neither of which
/// belongs before the other keep the order sway lists them in.
pub open spec fn belongs_before(
    outputs: Seq<SwayOutput>,
    a: WorkspaceView,
    b: WorkspaceView,
) -> bool {
    let ra = rank(outputs, a.output);
    let rb = rank(outputs, b.output);
    if ra != rb {
        ra < rb
    } else if a.output != b.output {
        crate::text::text_before(a.output, b.output)
    } else {
        number_before(a.num, b.num)
    }
}

/// `s` with `w` put in its place: behind everything it does not belong before.
pub open spec fn put_in(
    outputs: Seq<SwayOutput>,
    s: Seq<WorkspaceView>,
    w: WorkspaceView,
) -> Seq<WorkspaceView>
    decreases s.len(),
{
    if s.len() == 0 || !belongs_before(outputs, w, s.last()) {
        s.push(w)
    } else {
        put_in(outputs, s.drop_last(), w).push(s.last())
    }
}

/// The workspaces in display order.
pub open spec fn in_order(outputs: Seq<SwayOutput>, s: Seq<WorkspaceView>) -> Seq<WorkspaceView>
    decreases s.len(),
{
    if s.len() == 0 {
        seq![]
    } else {
        put_in(outputs, in_order(outputs, s.drop_last()), s.last())
    }
}

fn output_rank(outputs: &[SwayOutput], name: &str) -> (r: usize)
    ensures
        r == rank(outputs@, name@),
{
    let ghost p = named(name@);
    for i in 0..outputs.len()
        invariant
            p == named(name@),
            forall|j: int| 0 <= j < i ==> !p(#[trigger] outputs@[j]),
    {
        if same_text(&outputs[i].name, name) {
            proof {
                crate::lists::lemma_position_is(outputs@, p, i as int);
            }
            return i;
        }
    }
    proof {
        crate::lists::lemma_position_none(outputs@, p);
    }
    outputs.len()
}

fn goes_before(outputs: &[SwayOutput], a: &WorkspaceInfo, b: &WorkspaceInfo) -> (r: bool)
    ensures
        r == belongs_before(outputs@, a.deep_view(), b.deep_view()),
{
    let ra: usize = output_rank(outputs, &a.output);
    let rb: usize = output_rank(outputs, &b.output);
    if ra != rb {
        return ra < rb;
    }
    if !same_text(&a.output, &b.output) {
        return comes_before(&a.output, &b.output);
    }
    match (a.num, b.num) {
        (Some(x), Some(y)) => x < y,
        (Some(_), None) => true,
        _ => false,
    }
}

proof fn lemma_put_in_at(
    outputs: Seq<SwayOutput>,
    s: Seq<WorkspaceView>,
    w: WorkspaceView,
    k: int,
)
    requires
        0 <= k <= s.len(),
        forall|i: int| k <= i < s.len() ==> belongs_before(outputs, w, #[trigger] s[i]),
        k == 0 || !belongs_before(outputs, w, s[k - 1]),
    ensures
        put_in(outputs, s, w) == s.insert(k, w),
    decreases s.len(),
{
    if k == s.len() {
        assert(s.insert(k, w) =~= s.push(w));
    } else {
        assert(belongs_before(outputs, w, s[s.len() - 1]));
        lemma_put_in_at(outputs, s.drop_last(), w, k);
        assert(s.drop_last().insert(k, w).push(s.last()) =~= s.insert(k, w));
    }
}

/// Put the workspaces in display order.
fn sort_workspaces(outputs: &[SwayOutput], infos: Vec<WorkspaceInfo>) -> (r: Vec<WorkspaceInfo>)
    ensures
        r.deep_view() == in_order(outputs@, infos.deep_view()),
{
    let ghost all = infos.deep_view();
    let mut out: Vec<WorkspaceInfo> = Vec::new();
    assert(out.deep_view() =~= seq![]);
    assert(all.take(0) =~= seq![]);
    for i in 0..infos.len()
        invariant
            all == infos.deep_view(),
            out@.len() == i,
            out.deep_view() == in_order(outputs@, all.take(i as int)),
    {
        let w = infos[i].clone();
        let ghost sorted = out.deep_view();
        let mut k: usize = out.len();
        while k > 0 && goes_before(outputs, &w, &out[k - 1])
            invariant
                k <= out@.len(),
                sorted == out.deep_view(),
                forall|j: int|
                    k <= j < sorted.len() ==> belongs_before(
                        outputs@,
                        w.deep_view(),
                        #[trigger] sorted[j],
                    ),
            decreases k,
        {
            assert(sorted[k - 1] == out@[k - 1].deep_view());
            k = k - 1;
        }
        proof {
            if k > 0 {
                assert(sorted[k - 1] == out@[k - 1].deep_view());
            }
            lemma_put_in_at(outputs@, sorted, w.deep_view(), k as int);
            assert(all.take(i + 1).drop_last() =~= all.take(i as int));
            assert(all.take(i + 1).last() == w.deep_view());
        }
        let ghost view = w.deep_view();
        out.insert(k, w);
        assert(out.deep_view() =~= sorted.insert(k as int, view));
    }
    assert(all.take(all.len() as int) =~= all);
    out
}

// ---------------------------------------------------------------- snapshot --

/// The workspaces the panel may show, in sway's order, and the window lists
/// not claimed by any of them. The first entry for a node gets its windows.
pub open spec fn listed(ws: Seq<SwayWorkspace>, m: WindowMap) -> (Seq<WorkspaceView>, WindowMap)
    decreases ws.len(),
{
    if ws.len() == 0 {
        (seq![], m)
    } else {
        let (infos, left) = listed(ws.drop_last(), m);
        let w = ws.last();
        if w.name@ == SCRATCH_WORKSPACE@ {
            (infos, left)
        } else {
            (infos.push(info_of(w, left)), left.remove(w.id))
        }
    }
}

/// One workspace with its windows. Sway reports a negative number for one
/// without a number.
pub open spec fn info_of(w: SwayWorkspace, windows: WindowMap) -> WorkspaceView {
    WorkspaceView {
        id: w.id,
        num: if w.num < 0 {
            None
        } else {
            Some(w.num)
        },
        name: w.name@,
        output: w.output@,
        focused: w.focused,
        visible: w.visible,
        windows: if windows.dom().contains(w.id) {
            windows[w.id]
        } else {
            seq![]
        },
    }
}

/// The output that holds the focus: the one sway says, else that of the
/// focused workspace, else the first one there is.
pub open spec fn focused_output_of(
    outputs: Seq<SwayOutput>,
    workspaces: Seq<WorkspaceView>,
) -> Seq<char> {
    match crate::lists::first(outputs, |o: SwayOutput| o.focused) {
        Some(o) => o.name@,
        None => match crate::lists::first(workspaces, |w: WorkspaceView| w.focused) {
            Some(w) => w.output,
            None => if outputs.len() > 0 {
                outputs[0].name@
            } else {
                seq![]
            },
        },
    }
}

/// The snapshot of what sway reported.
pub open spec fn snapshot_of(
    workspaces: Seq<SwayWorkspace>,
    tree: TreeNode,
    outputs: Seq<SwayOutput>,
) -> SnapshotView {
    let infos = in_order(outputs, listed(workspaces, with_node(tree, Map::empty())).0);
    SnapshotView { focused_output: focused_output_of(outputs, infos), workspaces: infos }
}

fn focused_output(outputs: &[SwayOutput], infos: &Vec<WorkspaceInfo>) -> (r: String)
    ensures
        r@ == focused_output_of(outputs@, infos.deep_view()),
{
    let ghost p = |o: SwayOutput| o.focused;
    for i in 0..outputs.len()
        invariant
            p == (|o: SwayOutput| o.focused),
            forall|j: int| 0 <= j < i ==> !p(#[trigger] outputs@[j]),
    {
        if outputs[i].focused {
            proof {
                crate::lists::lemma_position_is(outputs@, p, i as int);
            }
            return outputs[i].name.clone();
        }
    }
    proof {
        crate::lists::lemma_position_none(outputs@, p);
    }
    let ghost q = |w: WorkspaceView| w.focused;
    let ghost all = infos.deep_view();
    for i in 0..infos.len()
        invariant
            p == (|o: SwayOutput| o.focused),
            crate::lists::first(outputs@, p) is None,
            q == (|w: WorkspaceView| w.focused),
            all == infos.deep_view(),
            forall|j: int| 0 <= j < i ==> !q(#[trigger] all[j]),
    {
        assert(all[i as int] == infos@[i as int].deep_view());
        if infos[i].focused {
            proof {
                crate::lists::lemma_position_is(all, q, i as int);
            }
            return infos[i].output.clone();
        }
    }
    proof {
        crate::lists::lemma_position_none(all, q);
    }
    if outputs.len() > 0 {
        outputs[0].name.clone()
    } else {
        String::new()
    }
}

/// Build a snapshot from sway's workspace list, layout tree and output list.
pub fn build_snapshot(
    workspaces: &[SwayWorkspace],
    tree: &TreeNode,
    outputs: &[SwayOutput],
) -> (r: Snapshot)
    ensures
        r.deep_view() == snapshot_of(workspaces@, *tree, outputs@),
{
    let mut windows = windows_by_workspace(tree);
    let ghost found = window_map(windows@);
    let mut infos: Vec<WorkspaceInfo> = Vec::new();
    assert(infos.deep_view() =~= seq![]);
    assert(workspaces@.take(0) =~= seq![]);
    for i in 0..workspaces.len()
        invariant
            (infos.deep_view(), window_map(windows@)) == listed(
                workspaces@.take(i as int),
                found,
            ),
    {
        let w = &workspaces[i];
        assert(workspaces@.take(i + 1).drop_last() =~= workspaces@.take(i as int));
        assert(workspaces@.take(i + 1).last() == workspaces@[i as int]);
        if !same_text(&w.name, SCRATCH_WORKSPACE) {
            let ghost before = infos.deep_view();
            let ghost left = window_map(windows@);
            let own: Vec<WindowInfo> = match windows.remove(&w.id) {
                Some(v) => v,
                None => Vec::new(),
            };
            assert(window_map(windows@) =~= left.remove(w.id));
            assert(own.deep_view() =~= info_of(*w, left).windows);
            infos.push(
                WorkspaceInfo {
                    id: w.id,
                    num: if w.num < 0 {
                        None
                    } else {
                        Some(w.num)
                    },
                    name: w.name.clone(),
                    output: w.output.clone(),
                    focused: w.focused,
                    visible: w.visible,
                    windows: own,
                },
            );
            assert(infos.deep_view() =~= before.push(info_of(*w, left)));
        }
    }
    assert(workspaces@.take(workspaces@.len() as int) =~= workspaces@);
    let infos = sort_workspaces(outputs, infos);
    let focused_output = focused_output(outputs, &infos);
    Snapshot { focused_output, workspaces: infos }
}

// -------------------------------------------------------------------- laws --

/// Whether `a` may stand before `b` in display order.
pub open spec fn may_precede(
    outputs: Seq<SwayOutput>,
    a: WorkspaceView,
    b: WorkspaceView,
) -> bool {
    !belongs_before(outputs, b, a)
}

/// Whether display order leaves it to sway which of the two comes first.
pub open spec fn ties_with(
    outputs: Seq<SwayOutput>,
    w: WorkspaceView,
) -> spec_fn(WorkspaceView) -> bool {
    |x: WorkspaceView| may_precede(outputs, x, w) && may_precede(outputs, w, x)
}

/// Display order is one: of two workspaces one may stand before the other, and
/// what may stand before a workspace may stand before all that follow it.
pub proof fn law_display_order_is_a_preorder(
    outputs: Seq<SwayOutput>,
    a: WorkspaceView,
    b: WorkspaceView,
    c: WorkspaceView,
)
    ensures
        may_precede(outputs, a, b) || may_precede(outputs, b, a),
        may_precede(outputs, a, b) && may_precede(outputs, b, c) ==> may_precede(outputs, a, c),
{
    crate::text::lemma_text_order_is_strict(a.output, b.output);
    crate::text::lemma_text_order_is_strict(b.output, c.output);
    crate::text::lemma_text_order_is_strict(a.output, c.output);
    crate::text::lemma_text_order_is_total(a.output, b.output);
    crate::text::lemma_text_order_is_total(b.output, c.output);
    crate::text::lemma_text_order_is_total(a.output, c.output);
    if crate::text::text_before(c.output, a.output) {
        if crate::text::text_before(a.output, b.output) {
            crate::text::lemma_text_order_is_transitive(c.output, a.output, b.output);
        }
        if crate::text::text_before(b.output, c.output) {
            crate::text::lemma_text_order_is_transitive(b.output, c.output, a.output);
        }
    }
}

proof fn lemma_put_in_keeps_order(
    outputs: Seq<SwayOutput>,
    s: Seq<WorkspaceView>,
    w: WorkspaceView,
)
    requires
        forall|i: int, j: int|
            0 <= i < j < s.len() ==> may_precede(outputs, #[trigger] s[i], #[trigger] s[j]),
    ensures
        put_in(outputs, s, w).to_multiset() == s.to_multiset().insert(w),
        forall|i: int, j: int|
            0 <= i < j < s.len() + 1 ==> may_precede(
                outputs,
                #[trigger] put_in(outputs, s, w)[i],
                #[trigger] put_in(outputs, s, w)[j],
            ),
        forall|i: int|
            0 <= i < s.len() + 1 ==> #[trigger] put_in(outputs, s, w)[i] == w || s.contains(
                put_in(outputs, s, w)[i],
            ),
        put_in(outputs, s, w).len() == s.len() + 1,
    decreases s.len(),
{
    broadcast use vstd::seq_lib::group_to_multiset_ensures;

    let r = put_in(outputs, s, w);
    if s.len() == 0 || !belongs_before(outputs, w, s.last()) {
        assert forall|i: int, j: int| 0 <= i < j < r.len() implies may_precede(
            outputs,
            #[trigger] r[i],
            #[trigger] r[j],
        ) by {
            if j == s.len() {
                law_display_order_is_a_preorder(outputs, s[i], s.last(), w);
                assert(i == s.len() - 1 || may_precede(outputs, s[i], s[s.len() - 1]));
            }
        }
    } else {
        let init = s.drop_last();
        let q = put_in(outputs, init, w);
        lemma_put_in_keeps_order(outputs, init, w);
        law_display_order_is_a_preorder(outputs, w, s.last(), w);
        assert forall|i: int, j: int| 0 <= i < j < r.len() implies may_precede(
            outputs,
            #[trigger] r[i],
            #[trigger] r[j],
        ) by {
            if j == s.len() {
                if q[i] != w {
                    let k = init.index_of(q[i]);
                    assert(s[k] == q[i]);
                    assert(may_precede(outputs, s[k], s[s.len() - 1]));
                }
            } else {
                assert(r[i] == q[i] && r[j] == q[j]);
            }
        }
        assert forall|i: int| 0 <= i < r.len() implies #[trigger] r[i] == w || s.contains(
            r[i],
        ) by {
            if i == s.len() {
                assert(r[i] == s[s.len() - 1]);
            } else {
                assert(r[i] == q[i]);
                if q[i] != w {
                    let k = init.index_of(q[i]);
                    assert(s[k] == q[i]);
                }
            }
        }
        assert(init.push(s.last()) =~= s);
        assert(s.to_multiset() =~= init.to_multiset().insert(s.last()));
        assert(r.to_multiset() =~= q.to_multiset().insert(s.last()));
    }
}

/// Sorting puts every workspace behind those that belong before it, and
/// neither loses nor invents one.
pub proof fn law_workspaces_come_out_in_order(outputs: Seq<SwayOutput>, s: Seq<WorkspaceView>)
    ensures
        in_order(outputs, s).len() == s.len(),
        in_order(outputs, s).to_multiset() == s.to_multiset(),
        forall|i: int, j: int|
            0 <= i < j < s.len() ==> may_precede(
                outputs,
                #[trigger] in_order(outputs, s)[i],
                #[trigger] in_order(outputs, s)[j],
            ),
    decreases s.len(),
{
    broadcast use vstd::seq_lib::group_to_multiset_ensures;

    if s.len() > 0 {
        let init = s.drop_last();
        law_workspaces_come_out_in_order(outputs, init);
        lemma_put_in_keeps_order(outputs, in_order(outputs, init), s.last());
        assert(init.push(s.last()) =~= s);
    } else {
        assert(in_order(outputs, s) =~= s);
    }
}

proof fn lemma_put_in_behind_ties(
    outputs: Seq<SwayOutput>,
    s: Seq<WorkspaceView>,
    w: WorkspaceView,
    v: WorkspaceView,
)
    ensures
        put_in(outputs, s, w).filter(ties_with(outputs, v)) == s.push(w).filter(
            ties_with(outputs, v),
        ),
    decreases s.len(),
{
    let p = ties_with(outputs, v);
    if s.len() != 0 && belongs_before(outputs, w, s.last()) {
        let init = s.drop_last();
        let q = put_in(outputs, init, w);
        lemma_put_in_behind_ties(outputs, init, w, v);
        reveal_with_fuel(Seq::filter, 3);
        assert(q.push(s.last()).drop_last() =~= q);
        assert(s.push(w).drop_last() =~= s);
        assert(init.push(w).drop_last() =~= init);
        if p(w) {
            law_display_order_is_a_preorder(outputs, s.last(), v, w);
        }
    }
}

/// Workspaces that display order does not tell apart keep the order in which
/// sway lists them.
pub proof fn law_ties_keep_the_order_sway_gives(
    outputs: Seq<SwayOutput>,
    s: Seq<WorkspaceView>,
    w: WorkspaceView,
)
    ensures
        in_order(outputs, s).filter(ties_with(outputs, w)) == s.filter(ties_with(outputs, w)),
    decreases s.len(),
{
    if s.len() > 0 {
        let init = s.drop_last();
        let sorted = in_order(outputs, init);
        law_ties_keep_the_order_sway_gives(outputs, init, w);
        lemma_put_in_behind_ties(outputs, sorted, s.last(), w);
        reveal_with_fuel(Seq::filter, 2);
        assert(sorted.push(s.last()).drop_last() =~= sorted);
    } else {
        assert(in_order(outputs, s) =~= s);
    }
}

proof fn lemma_listed_are_real(ws: Seq<SwayWorkspace>, m: WindowMap, i: int)
    requires
        0 <= i < listed(ws, m).0.len(),
    ensures
        listed(ws, m).0[i].name != SCRATCH_WORKSPACE@,
        listed(ws, m).0[i].num matches Some(n) ==> n >= 0,
        exists|k: int|
            0 <= k < ws.len() && #[trigger] ws[k].name@ == listed(ws, m).0[i].name && ws[k].id
                == listed(ws, m).0[i].id,
    decreases ws.len(),
{
    let init = ws.drop_last();
    if i < listed(init, m).0.len() {
        lemma_listed_are_real(init, m, i);
        let k = choose|k: int|
            0 <= k < init.len() && #[trigger] init[k].name@ == listed(init, m).0[i].name
                && init[k].id == listed(init, m).0[i].id;
        assert(ws[k] == init[k]);
    } else {
        assert(ws[ws.len() - 1] == ws.last());
    }
}

/// The scratchpad is never among the workspaces of a snapshot, no workspace
/// carries a negative number, and each of them is one that sway listed.
pub proof fn law_snapshots_hold_real_workspaces(
    workspaces: Seq<SwayWorkspace>,
    tree: TreeNode,
    outputs: Seq<SwayOutput>,
    i: int,
)
    requires
        0 <= i < snapshot_of(workspaces, tree, outputs).workspaces.len(),
    ensures
        ({
            let w = snapshot_of(workspaces, tree, outputs).workspaces[i];
            &&& w.name != SCRATCH_WORKSPACE@
            &&& w.num matches Some(n) ==> n >= 0
            &&& exists|k: int|
                0 <= k < workspaces.len() && #[trigger] workspaces[k].name@ == w.name
                    && workspaces[k].id == w.id
        }),
{
    broadcast use vstd::seq_lib::group_to_multiset_ensures;

    let found = listed(workspaces, with_node(tree, Map::empty())).0;
    let sorted = in_order(outputs, found);
    law_workspaces_come_out_in_order(outputs, found);
    assert(sorted.contains(sorted[i]));
    assert(sorted.to_multiset().count(sorted[i]) > 0);
    let k = found.index_of(sorted[i]);
    assert(found.contains(sorted[i]));
    lemma_listed_are_real(workspaces, with_node(tree, Map::empty()), k);
}

} // verus!
