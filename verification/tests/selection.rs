use svitek::selection::{clamp_step, commit_is_a_plain_hide, wrap_step};

#[test]
fn the_selection_clamps_at_both_ends_and_never_wraps() {
    // 3 rows, selection on the first.
    assert_eq!(clamp_step(0, 1, 3), 1);
    assert_eq!(clamp_step(0, 2, 3), 2);
    // Past the end stops at the end: 1 + 4 rows down is the last row.
    assert_eq!(clamp_step(0, 4, 3), 2);
    assert_eq!(clamp_step(2, 5, 3), 2);
    // And past the start stops at the start, rather than wrapping round.
    assert_eq!(clamp_step(2, -2, 3), 0);
    assert_eq!(clamp_step(0, -1, 3), 0);
    assert_eq!(clamp_step(1, 0, 3), 1);
    // An empty list has no selection to move.
    assert_eq!(clamp_step(0, 3, 0), 0);
    // No overflow on absurd input.
    assert_eq!(clamp_step(0, i32::MAX, 3), 2);
    assert_eq!(clamp_step(2, i32::MIN, 3), 0);
}

#[test]
fn explicit_steps_wrap_at_both_ends() {
    assert_eq!(wrap_step(0, 1, 3), 1);
    assert_eq!(wrap_step(2, 1, 3), 0);
    assert_eq!(wrap_step(0, -1, 3), 2);
    assert_eq!(wrap_step(1, 7, 3), 2);
    assert_eq!(wrap_step(1, -7, 3), 0);
    assert_eq!(wrap_step(1, -4, 3), 0);
    assert_eq!(wrap_step(1, 3, 3), 1);
    assert_eq!(wrap_step(0, 5, 1), 0);
    assert_eq!(wrap_step(0, 5, 0), 0);
    assert_eq!(wrap_step(0, i32::MIN, 3), 1);
    assert_eq!(wrap_step(usize::MAX, i32::MAX, 2), 0);
}

#[test]
fn committing_where_you_already_are_is_just_a_hide() {
    // The panel opened on "1", nothing hovered, nothing scrolled: Enter (or a
    // click on row 1) has nowhere to switch to.
    assert!(commit_is_a_plain_hide(Some("1"), Some("1"), Some("1"), false));
    // Origin "1", a preview took sway to "2": committing "2" is real…
    assert!(!commit_is_a_plain_hide(Some("2"), Some("2"), Some("1"), false));
    // …and so is coming back to "1": that switch is how you come back.
    assert!(!commit_is_a_plain_hide(Some("1"), Some("2"), Some("1"), false));
    // A preview still waiting out its debounce means sway has not been asked
    // yet, so even a commit of the origin has to ask.
    assert!(!commit_is_a_plain_hide(Some("1"), Some("1"), Some("1"), true));
    // Nothing selected at all (no rows, no origin): nothing to switch to, but
    // that is not what the rule is about.
    assert!(!commit_is_a_plain_hide(None, None, None, false));
}
