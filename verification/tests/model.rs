use svitek::model::{flags_only_change, Command, Snapshot, WindowInfo, WorkspaceInfo};

/// Every command parses from its own name and prints back as it, and
/// nothing else parses at all: the control socket and the argv parser are
/// both this one function.
#[test]
fn commands_round_trip_through_their_names() {
    for cmd in [
        Command::Toggle,
        Command::Show,
        Command::Hide,
        Command::Next,
        Command::Prev,
        Command::Quit,
    ] {
        assert_eq!(Command::parse(cmd.as_str()), Some(cmd));
    }
    // The socket hands the line over with its newline still on it.
    assert_eq!(Command::parse("next\n"), Some(Command::Next));
    assert_eq!(Command::parse("  prev  "), Some(Command::Prev));
    assert_eq!(Command::parse("NEXT"), None);
    assert_eq!(Command::parse("previous"), None);
    assert_eq!(Command::parse(""), None);
}

fn win(id: i64, title: &str, focused: bool) -> WindowInfo {
    WindowInfo {
        id,
        title: title.to_string(),
        app_id: Some("foot".to_string()),
        focused,
    }
}

fn ws(id: i64, name: &str, focused: bool, visible: bool, windows: Vec<WindowInfo>) -> WorkspaceInfo {
    WorkspaceInfo {
        id,
        num: name.parse().ok(),
        name: name.to_string(),
        output: "HEADLESS-1".to_string(),
        focused,
        visible,
        windows,
    }
}

fn two() -> Vec<WorkspaceInfo> {
    vec![
        ws(1, "1", true, true, vec![win(10, "ALPHA", true)]),
        ws(2, "2", false, false, vec![win(20, "BRAVO", false)]),
    ]
}

#[test]
fn identical_lists_are_a_flags_only_change() {
    assert!(flags_only_change(&two(), &two()));
}

#[test]
fn a_hover_preview_switch_is_a_flags_only_change() {
    // Exactly what sway reports after the preview moved focus to 2: the
    // workspace flags flip, and so does the focused window inside them.
    let before = two();
    let mut after = two();
    after[0].focused = false;
    after[0].visible = false;
    after[0].windows[0].focused = false;
    after[1].focused = true;
    after[1].visible = true;
    after[1].windows[0].focused = true;
    assert_ne!(before, after, "the snapshots really do differ");
    assert!(flags_only_change(&before, &after));
}

/// The one that keeps hover and the wheel usable: a terminal running `top`
/// retitles itself once a second, and a rebuild for that would cancel the
/// pending preview and disarm hovering under a pointer that never moved.
/// Same rows, same windows; only what a label *says* changed.
#[test]
fn a_retitled_window_is_a_flags_only_change() {
    let before = two();
    let mut after = two();
    after[0].windows[0].title = "top - 14:02:11".to_string();
    assert_ne!(before, after, "the snapshots really do differ");
    assert!(flags_only_change(&before, &after));

    // Including the empty title the panel renders as "(untitled)", in both
    // directions, and on a window that is not the focused one.
    let mut blanked = two();
    blanked[1].windows[0].title = String::new();
    assert!(flags_only_change(&before, &blanked));
    assert!(flags_only_change(&blanked, &before));

    // And together with the focus flags a preview flips, which is what an
    // actual state after a preview of a busy workspace looks like.
    let mut both = two();
    both[0].focused = false;
    both[0].visible = false;
    both[0].windows[0].focused = false;
    both[0].windows[0].title = "top - 14:02:12".to_string();
    both[1].focused = true;
    both[1].visible = true;
    both[1].windows[0].focused = true;
    assert!(flags_only_change(&before, &both));
}

#[test]
fn structural_changes_still_rebuild() {
    let before = two();

    let mut renamed = two();
    renamed[1].name = "web".to_string();
    assert!(!flags_only_change(&before, &renamed));

    let mut window_gone = two();
    window_gone[1].windows.clear();
    assert!(!flags_only_change(&before, &window_gone));

    let mut new_window = two();
    new_window[0].windows.push(win(11, "DELTA", false));
    assert!(!flags_only_change(&before, &new_window));

    let mut different_window = two();
    different_window[0].windows[0].id = 99;
    assert!(!flags_only_change(&before, &different_window));

    let mut app_id_changed = two();
    app_id_changed[0].windows[0].app_id = None;
    assert!(!flags_only_change(&before, &app_id_changed));

    // Same ids, different order: the labels would end up on the wrong rows
    // if this were applied in place.
    let mut reordered = two();
    reordered[0].windows.push(win(11, "DELTA", false));
    let mut swapped = reordered.clone();
    swapped[0].windows.swap(0, 1);
    assert!(!flags_only_change(&reordered, &swapped));

    let mut ws_added = two();
    ws_added.push(ws(3, "3", false, false, vec![]));
    assert!(!flags_only_change(&before, &ws_added));

    let mut ws_gone = two();
    ws_gone.pop();
    assert!(!flags_only_change(&before, &ws_gone));

    let mut moved_output = two();
    moved_output[1].output = "HEADLESS-2".to_string();
    assert!(!flags_only_change(&before, &moved_output));
}

// ------------------------------------------------------------- edge cases --

#[test]
fn workspaces_are_found_by_output() {
    let mut all = two();
    all.push(ws(3, "3", false, true, vec![]));
    all[2].output = "DP-2".to_string();
    let s = Snapshot { focused_output: "HEADLESS-1".to_string(), workspaces: all };
    let names: Vec<&str> = s.on_output("HEADLESS-1").iter().map(|w| w.name.as_str()).collect();
    assert_eq!(names, vec!["1", "2"]);
    assert_eq!(s.visible_on("DP-2").map(|w| w.name.as_str()), Some("3"));
    assert_eq!(s.visible_on("HEADLESS-1").map(|w| w.name.as_str()), Some("1"));
    assert!(s.visible_on("DP-3").is_none());
    assert!(s.on_output("").is_empty());
}

#[test]
fn unicode_blanks_are_trimmed_from_a_command() {
    assert_eq!(Command::parse("\u{a0}\u{3000}quit\u{2029}\t\r\n"), Some(Command::Quit));
    // A zero width space is not white space.
    assert_eq!(Command::parse("\u{200b}quit"), None);
    assert_eq!(Command::parse("qu it"), None);
}

#[test]
fn a_default_snapshot_is_empty() {
    let s = Snapshot::default();
    assert!(s.focused_output.is_empty() && s.workspaces.is_empty());
    assert_eq!(s.clone(), s);
}
