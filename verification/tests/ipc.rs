use std::collections::HashMap;
use svitek::ipc::{
    output_of_workspace, workspace_msg, workspace_names, EventNode, IpcAction, IpcResult, Listener,
    SwayEvent, WorkspaceChange, WorkspaceEvent,
};
use svitek::model::{Msg, Snapshot, WindowInfo, WorkspaceInfo};
use svitek::sway::{
    build_snapshot, windows_by_workspace, NodeKind, SwayOutput, SwayWorkspace, TreeNode,
    XProperties, SCRATCH_WORKSPACE,
};

// -- a session on two outputs, as sway reports it --------------------------

fn workspace(id: i64, num: i32, name: &str, output: &str) -> SwayWorkspace {
    SwayWorkspace {
        id,
        num,
        name: name.to_string(),
        output: output.to_string(),
        focused: false,
        visible: false,
    }
}

fn workspaces() -> Vec<SwayWorkspace> {
    let mut list = vec![
        workspace(30, 10, "10", "HEADLESS-2"),
        workspace(31, 3, "3", "HEADLESS-2"),
        workspace(32, -1, "media", "HEADLESS-2"),
        workspace(33, -1, "abc", "HEADLESS-2"),
        workspace(20, -1, "alpha", "HEADLESS-1"),
        workspace(21, 2, "2: web", "HEADLESS-1"),
        workspace(22, 1, "1", "HEADLESS-1"),
        workspace(2, -1, SCRATCH_WORKSPACE, "__i3"),
    ];
    list[1].visible = true;
    list[6].visible = true;
    list[6].focused = true;
    list
}

fn outputs(focused: bool) -> Vec<SwayOutput> {
    vec![
        SwayOutput { name: "HEADLESS-1".to_string(), focused },
        SwayOutput { name: "HEADLESS-2".to_string(), focused: false },
    ]
}

fn node(id: i64, kind: NodeKind, name: Option<&str>, nodes: Vec<TreeNode>) -> TreeNode {
    TreeNode {
        id,
        name: name.map(str::to_string),
        kind,
        nodes,
        floating_nodes: Vec::new(),
        pid: None,
        app_id: None,
        window_properties: None,
        focused: false,
    }
}

fn foot(id: i64, title: &str) -> TreeNode {
    let mut n = node(id, NodeKind::Con, Some(title), Vec::new());
    n.pid = Some(1000);
    n.app_id = Some("foot".to_string());
    n
}

fn floating(id: i64, title: &str) -> TreeNode {
    let mut n = foot(id, title);
    n.kind = NodeKind::FloatingCon;
    n
}

fn xterm(id: i64) -> TreeNode {
    let mut n = node(id, NodeKind::Con, Some("xterm"), Vec::new());
    n.pid = Some(1001);
    n.window_properties = Some(XProperties { class: Some("XTerm".to_string()) });
    n
}

fn tree() -> TreeNode {
    let split = |id, nodes| node(id, NodeKind::Con, None, nodes);
    let ws = |id, name, nodes| node(id, NodeKind::Workspace, Some(name), nodes);
    let mut one = ws(22, "1", vec![foot(100, "one-tiled")]);
    let mut over = floating(101, "one-floating");
    over.focused = true;
    one.floating_nodes.push(over);
    let three = ws(
        31,
        "3",
        vec![
            foot(110, "three-left"),
            split(111, vec![
                foot(112, "three-nested"),
                split(113, vec![foot(114, "three-rt-top"), foot(115, "three-rt-bot")]),
            ]),
        ],
    );
    let mut scratch = ws(2, SCRATCH_WORKSPACE, Vec::new());
    scratch.floating_nodes.push(floating(120, "scratch-win"));
    node(1, NodeKind::Other, Some("root"), vec![
        node(3, NodeKind::Other, Some("__i3"), vec![scratch]),
        node(4, NodeKind::Other, Some("HEADLESS-1"), vec![
            ws(20, "alpha", vec![foot(130, "alpha-win")]),
            ws(21, "2: web", vec![xterm(131)]),
            one,
        ]),
        node(5, NodeKind::Other, Some("HEADLESS-2"), vec![
            ws(30, "10", vec![foot(140, "ten-win")]),
            three,
            ws(32, "media", vec![foot(141, "media-win")]),
            ws(33, "abc", vec![foot(142, "abc-win")]),
        ]),
    ])
}

fn fixture() -> Snapshot {
    build_snapshot(&workspaces(), &tree(), &outputs(true))
}

fn ws<'a>(s: &'a Snapshot, name: &str) -> &'a WorkspaceInfo {
    s.workspaces
        .iter()
        .find(|w| w.name == name)
        .unwrap_or_else(|| panic!("no workspace {name} in {:?}", names(s)))
}

fn names(s: &Snapshot) -> Vec<&str> {
    s.workspaces.iter().map(|w| w.name.as_str()).collect()
}

fn titles(w: &WorkspaceInfo) -> Vec<&str> {
    w.windows.iter().map(|x| x.title.as_str()).collect()
}

#[test]
fn orders_outputs_then_numbered_then_named() {
    let s = fixture();
    // HEADLESS-1 first (the order of the outputs), numbered ascending, then the
    // named ones in sway's own order: "abc" was created after "media".
    assert_eq!(names(&s), vec!["1", "2: web", "alpha", "3", "10", "media", "abc"]);
    assert_eq!(
        s.workspaces.iter().map(|w| w.output.as_str()).collect::<Vec<_>>(),
        vec![
            "HEADLESS-1",
            "HEADLESS-1",
            "HEADLESS-1",
            "HEADLESS-2",
            "HEADLESS-2",
            "HEADLESS-2",
            "HEADLESS-2"
        ]
    );
}

#[test]
fn maps_negative_num_to_none() {
    let s = fixture();
    assert_eq!(ws(&s, "1").num, Some(1));
    assert_eq!(ws(&s, "2: web").num, Some(2));
    assert_eq!(ws(&s, "10").num, Some(10));
    assert_eq!(ws(&s, "alpha").num, None);
    assert_eq!(ws(&s, "media").num, None);
    assert!(s.workspaces.iter().all(|w| w.num != Some(-1)));
}

#[test]
fn windows_in_tree_order_tiling_before_floating() {
    let s = fixture();
    // A tiled window and a floating one on workspace 1.
    assert_eq!(titles(ws(&s, "1")), vec!["one-tiled", "one-floating"]);
    // Workspace 3 holds nested split containers; their leaves come in place of
    // the containers.
    assert_eq!(
        titles(ws(&s, "3")),
        vec!["three-left", "three-nested", "three-rt-top", "three-rt-bot"]
    );
}

#[test]
fn no_split_container_is_reported_as_a_window() {
    let s = fixture();
    assert!(
        s.workspaces.iter().flat_map(|w| &w.windows).all(|w| !w.title.is_empty()),
        "a split container leaked in as a window"
    );
}

#[test]
fn xwayland_class_is_used_as_app_id() {
    let s = fixture();
    let web = ws(&s, "2: web");
    assert_eq!(web.windows.len(), 1);
    // xterm is an xwayland view: no app_id, class "XTerm".
    assert_eq!(web.windows[0].app_id.as_deref(), Some("XTerm"));
}

#[test]
fn wayland_app_id_is_used() {
    let s = fixture();
    assert_eq!(ws(&s, "1").windows[0].app_id.as_deref(), Some("foot"));
}

#[test]
fn scratchpad_is_excluded() {
    let s = fixture();
    assert!(!names(&s).contains(&SCRATCH_WORKSPACE));
    assert!(
        s.workspaces.iter().flat_map(|w| &w.windows).all(|w| w.title != "scratch-win"),
        "a scratchpad window leaked into a workspace"
    );
    // The tree walk does not go there either.
    assert!(!windows_by_workspace(&tree()).contains_key(&2));
}

#[test]
fn focus_and_visibility_flags() {
    let s = fixture();
    assert_eq!(s.focused_output, "HEADLESS-1");
    let focused: Vec<&str> =
        s.workspaces.iter().filter(|w| w.focused).map(|w| w.name.as_str()).collect();
    assert_eq!(focused, vec!["1"]);
    let visible: Vec<&str> =
        s.workspaces.iter().filter(|w| w.visible).map(|w| w.name.as_str()).collect();
    assert_eq!(visible, vec!["1", "3"]);
    // Exactly one focused window overall, and it is the floating one.
    let focused_windows: Vec<&str> = s
        .workspaces
        .iter()
        .flat_map(|w| &w.windows)
        .filter(|w| w.focused)
        .map(|w| w.title.as_str())
        .collect();
    assert_eq!(focused_windows, vec!["one-floating"]);
    assert_eq!(s.visible_on("HEADLESS-2").map(|w| w.name.as_str()), Some("3"));
}

#[test]
fn focused_output_falls_back_to_the_focused_workspace() {
    let outputs = outputs(false);
    assert!(outputs.iter().all(|o| !o.focused));
    let s = build_snapshot(&workspaces(), &tree(), &outputs);
    assert_eq!(s.focused_output, "HEADLESS-1");
}

#[test]
fn focused_output_falls_back_to_the_first_output() {
    let outputs = outputs(false);
    let s = build_snapshot(&[], &tree(), &outputs);
    assert!(s.workspaces.is_empty());
    assert_eq!(s.focused_output, outputs[0].name);
}

#[test]
fn empty_everything_is_not_a_panic() {
    let s = build_snapshot(&[], &tree(), &[]);
    assert_eq!(s, Snapshot::default());
}

#[test]
fn an_output_sway_did_not_list_comes_last() {
    let list = vec![
        workspace(1, 1, "1", "GONE-B"),
        workspace(2, 2, "2", "GONE-A"),
        workspace(3, 9, "9", "HEADLESS-2"),
        workspace(4, 3, "3", "GONE-A"),
    ];
    let s = build_snapshot(&list, &tree(), &outputs(true));
    assert_eq!(names(&s), vec!["9", "2", "3", "1"]);
}

#[test]
fn a_window_without_a_title_is_a_window_and_one_without_anything_is_not() {
    let mut bare = node(50, NodeKind::Con, None, Vec::new());
    let nothing = node(51, NodeKind::Con, None, Vec::new());
    bare.pid = Some(7);
    let root = node(1, NodeKind::Other, None, vec![node(
        9,
        NodeKind::Workspace,
        Some("9"),
        vec![bare, nothing],
    )]);
    let windows = windows_by_workspace(&root);
    assert_eq!(
        windows[&9],
        vec![WindowInfo { id: 50, title: String::new(), app_id: None, focused: false }]
    );
}

// -- workspace events -> the name-keyed cache messages ----------------------

fn named(id: i64, name: &str) -> Option<EventNode> {
    Some(EventNode { id, name: Some(name.to_string()), output: Some("HEADLESS-1".to_string()) })
}

fn rename() -> WorkspaceEvent {
    WorkspaceEvent { change: WorkspaceChange::Rename, current: named(7, "2: mail"), old: None }
}

/// `swaymsg rename workspace 2 to "2: mail"`: sway leaves `old` null there, so
/// the previous name comes from the node id, which the rename does not change.
#[test]
fn rename_without_old_is_resolved_through_the_node_id() {
    let ev = rename();
    assert!(ev.old.is_none(), "sway 1.12 sends no `old` on a rename");
    let names = HashMap::from([(7, "2".to_owned()), (4, "1".to_owned())]);
    assert!(matches!(
        workspace_msg(&ev, &names),
        Some(Msg::WorkspaceRenamed { from, to }) if from == "2" && to == "2: mail"
    ));
}

/// A workspace we have never seen a snapshot of cannot be renamed *from*
/// anything; better to keep no thumbnail than the wrong one.
#[test]
fn rename_of_an_unknown_workspace_is_ignored() {
    assert!(workspace_msg(&rename(), &HashMap::new()).is_none());
}

/// If sway (or i3) ever does fill `old` in, that wins over the id lookup.
#[test]
fn rename_prefers_the_old_node_when_sway_sends_one() {
    let mut ev = rename();
    ev.old = named(7, "2");
    assert_eq!(ev.old.as_ref().and_then(|o| o.name.as_deref()), Some("2"));
    // A deliberately wrong map: the event's own `old` must be used.
    let names = HashMap::from([(7, "stale".to_owned())]);
    assert!(matches!(
        workspace_msg(&ev, &names),
        Some(Msg::WorkspaceRenamed { from, to }) if from == "2" && to == "2: mail"
    ));
}

/// Leaving workspace 1 with nothing on it. The workspace is destroyed, so its
/// cached frame has to go.
#[test]
fn empty_becomes_a_removal() {
    let ev =
        WorkspaceEvent { change: WorkspaceChange::Empty, current: named(4, "1"), old: None };
    assert!(matches!(
        workspace_msg(&ev, &HashMap::new()),
        Some(Msg::WorkspaceRemoved { name }) if name == "1"
    ));
}

/// `focus` has its own message (`WorkspaceSwitched`) and must not produce a
/// second one: the workspace is neither renamed nor gone.
#[test]
fn focus_produces_no_cache_message() {
    let ev = WorkspaceEvent {
        change: WorkspaceChange::Focus,
        current: named(7, "2"),
        old: named(4, "1"),
    };
    let names = HashMap::from([(7, "2".to_owned())]);
    assert!(workspace_msg(&ev, &names).is_none());
}

#[test]
fn workspace_names_maps_ids_to_names() {
    let s = fixture();
    let names = workspace_names(&s);
    let ws = ws(&s, "2: web");
    assert_eq!(names.get(&ws.id).map(String::as_str), Some("2: web"));
    assert_eq!(names.len(), 7);
}

#[test]
fn a_rename_to_the_same_or_to_no_name_is_ignored() {
    let names = HashMap::from([(7, "2: mail".to_owned())]);
    assert!(workspace_msg(&rename(), &names).is_none());
    let mut ev = rename();
    ev.current = named(7, "");
    assert!(workspace_msg(&ev, &names).is_none());
    ev.current = named(7, "3");
    ev.old = named(7, "");
    // An empty `old` name is no name, and does not fall back to the map.
    assert!(workspace_msg(&ev, &names).is_none());
    ev.current = None;
    assert!(workspace_msg(&ev, &names).is_none());
}

#[test]
fn the_output_of_a_workspace_is_found_by_its_id() {
    assert_eq!(output_of_workspace(&workspaces(), 31), Some("HEADLESS-2".to_string()));
    assert_eq!(output_of_workspace(&workspaces(), 99), None);
}

// -- the listener ------------------------------------------------------------

fn listening() -> Listener {
    let (mut l, first) = Listener::new();
    assert_eq!(first, IpcAction::Connect);
    assert_eq!(l.step(IpcResult::Connected(Ok(()))), IpcAction::TakeSnapshot);
    let state = l.step(IpcResult::Snapshot(Ok(fixture())));
    assert_eq!(state, IpcAction::Send(Msg::State(fixture())));
    assert_eq!(l.step(IpcResult::Sent(true)), IpcAction::Subscribe);
    assert_eq!(l.step(IpcResult::Subscribed(Ok(()))), IpcAction::NextEvent);
    l
}

#[test]
fn a_switch_is_announced_before_the_state_that_follows_it() {
    let mut l = listening();
    let ev = WorkspaceEvent {
        change: WorkspaceChange::Focus,
        current: named(21, "2: web"),
        old: named(22, "1"),
    };
    assert_eq!(
        l.step(IpcResult::Event(Ok(SwayEvent::Workspace(ev)))),
        IpcAction::Send(Msg::WorkspaceSwitched {
            output: "HEADLESS-1".to_string(),
            from: Some("1".to_string()),
            to: "2: web".to_string(),
        })
    );
    assert_eq!(l.step(IpcResult::Sent(true)), IpcAction::TakeSnapshot);
    assert_eq!(
        l.step(IpcResult::Snapshot(Ok(fixture()))),
        IpcAction::Send(Msg::State(fixture()))
    );
    assert_eq!(l.step(IpcResult::Sent(true)), IpcAction::NextEvent);
}

#[test]
fn an_event_without_an_output_has_it_looked_up() {
    let mut l = listening();
    let ev = WorkspaceEvent {
        change: WorkspaceChange::Focus,
        current: Some(EventNode { id: 31, name: None, output: None }),
        old: None,
    };
    assert_eq!(
        l.step(IpcResult::Event(Ok(SwayEvent::Workspace(ev)))),
        IpcAction::LookUpOutput(31)
    );
    assert_eq!(
        l.step(IpcResult::Output(Some("HEADLESS-2".to_string()))),
        IpcAction::Send(Msg::WorkspaceSwitched {
            output: "HEADLESS-2".to_string(),
            from: None,
            to: String::new(),
        })
    );
}

#[test]
fn a_rename_is_told_before_the_state_and_from_the_last_names() {
    let mut l = listening();
    let ev = WorkspaceEvent {
        change: WorkspaceChange::Rename,
        current: named(21, "2: mail"),
        old: None,
    };
    assert_eq!(
        l.step(IpcResult::Event(Ok(SwayEvent::Workspace(ev)))),
        IpcAction::Send(Msg::WorkspaceRenamed {
            from: "2: web".to_string(),
            to: "2: mail".to_string(),
        })
    );
    assert_eq!(l.step(IpcResult::Sent(true)), IpcAction::TakeSnapshot);
    // A failed read is not the end; the stream will say so if it is.
    assert_eq!(l.step(IpcResult::Snapshot(Err("gone".to_string()))), IpcAction::NextEvent);
}

#[test]
fn every_way_to_lose_sway_is_reported_in_its_own_words() {
    let lost = |text: &str| IpcAction::Send(Msg::IpcLost(text.to_string()));
    let err = || "no such file".to_string();

    let (mut l, _) = Listener::new();
    assert_eq!(
        l.step(IpcResult::Connected(Err(err()))),
        lost("cannot connect to sway: no such file")
    );
    assert_eq!(l.step(IpcResult::Sent(true)), IpcAction::Stop);

    let (mut l, _) = Listener::new();
    l.step(IpcResult::Connected(Ok(())));
    assert_eq!(
        l.step(IpcResult::Snapshot(Err(err()))),
        lost("initial snapshot failed: no such file")
    );

    let (mut l, _) = Listener::new();
    l.step(IpcResult::Connected(Ok(())));
    l.step(IpcResult::Snapshot(Ok(fixture())));
    l.step(IpcResult::Sent(true));
    assert_eq!(l.step(IpcResult::Subscribed(Err(err()))), lost("subscribe failed: no such file"));

    let mut l = listening();
    assert_eq!(l.step(IpcResult::Event(Err(err()))), lost("event stream error: no such file"));

    let mut l = listening();
    assert_eq!(l.step(IpcResult::Ended), lost("sway closed the event stream"));
    assert_eq!(l.step(IpcResult::Sent(true)), IpcAction::Stop);

    // With nobody to tell, it just stops.
    let mut l = listening();
    assert_eq!(l.step(IpcResult::Event(Ok(SwayEvent::Other))), IpcAction::TakeSnapshot);
    l.step(IpcResult::Snapshot(Ok(fixture())));
    assert_eq!(l.step(IpcResult::Sent(false)), IpcAction::Stop);
}
