use svitek::config::{Colors, Config, Position};
use svitek::layout::{
    app_id_chars, card_width, frame_layout, panel_width, strip_width, thumb_look, title_chars,
    window_line, window_list, Alignment, FrameLayout, Line, ThumbLook, CHROME_WIDTH,
    TEXT_COLUMN_WIDTH,
};
use svitek::model::{Thumbnail, WindowInfo, WorkspaceInfo};
use svitek::style::{css_color, stylesheet, ROW_PADDING, SCRIM_BG};

#[test]
fn colors_are_validated() {
    assert_eq!(css_color("#1e1e2ecc", "#000"), "#1e1e2ecc");
    assert_eq!(css_color("#fff", "#000"), "#fff");
    assert_eq!(css_color("  #89b4fa ", "#000"), "#89b4fa");
    assert_eq!(css_color("red", "#000"), "red");
    // Anything that could break out of the declaration is rejected.
    assert_eq!(css_color("#fff; } * { color: red", "#000"), "#000");
    assert_eq!(css_color("", "#000"), "#000");
    assert_eq!(css_color("#12345", "#000"), "#000");
}

#[test]
fn odd_colors_fall_back() {
    assert_eq!(css_color("#ggg", "#000"), "#000");
    assert_eq!(css_color("#ééé", "#000"), "#000");
    assert_eq!(css_color("rouge-vif", "#000"), "#000");
    assert_eq!(css_color(&"a".repeat(32), "#000"), "a".repeat(32));
    assert_eq!(css_color(&"a".repeat(33), "#000"), "#000");
    assert_eq!(css_color("#ABCDEF09", "#000"), "#ABCDEF09");
    assert_eq!(css_color("#", "#000"), "#000");
}

#[test]
fn stylesheet_mentions_every_configured_color() {
    let c = Colors::default();
    let css = stylesheet(&c);
    for color in [&c.background, &c.foreground, &c.dim, &c.focused] {
        assert!(css.contains(color.as_str()), "missing {color} in {css}");
    }
}

#[test]
fn the_frame_carries_the_background_and_the_scrim_is_invisible() {
    let c = Colors::default();
    let css = stylesheet(&c);
    // The window is the whole output, so the configured background belongs to
    // the frame; the rest of the surface must stay invisible.
    assert!(css.contains(&format!("window.svitek {{ background-color: {SCRIM_BG};")));
    assert!(css.contains(&format!("scrolledwindow.panel {{ background-color: {};", c.background)));
}

#[test]
fn the_previewed_row_is_marked_apart_from_the_focused_one() {
    let css = stylesheet(&Colors::default());
    assert!(css.contains(".ws-row.previewing"));
    // Same hue, weaker: the focused row is where you came back to, the
    // previewed one is where you are looking.
    assert!(css.contains(&format!("border-color: alpha({}, 0.6)", Colors::default().focused)));
}

#[test]
fn the_centered_strip_has_its_own_selectors_without_touching_the_row_colours() {
    let c = Colors::default();
    let css = stylesheet(&c);
    assert!(css.contains(".ws-strip"), "the strip needs its own padding");
    assert!(css.contains(".ws-card"), "cards need their own rule");
    assert!(css.contains(".card-wins"));
    // A card is a `.ws-row` too, so focus and preview are one rule for both
    // layouts.
    assert!(css.contains(&format!(".ws-row.focused {{\n  border-color: {};", c.focused)));
    assert!(css.contains(".ws-row.previewing"));
    // `card_width` counts the padding the stylesheet actually sets.
    assert!(css.contains(&format!(".ws-card {{ padding: {ROW_PADDING}px; }}")));
}

#[test]
fn the_stylesheet_is_exactly_this() {
    let colors = Colors {
        background: "#111".to_string(),
        foreground: "#222".to_string(),
        dim: "#333".to_string(),
        focused: "not a colour".to_string(),
    };
    let expected = "\
window.svitek { background-color: transparent; color: #222; }
window.svitek scrolledwindow,
window.svitek viewport { background: none; background-color: transparent; }
window.svitek scrolledwindow.panel { background-color: #111; }
window.svitek .ws-list { padding: 8px; }
window.svitek .ws-strip { padding: 8px; }
window.svitek .ws-row {
  padding: 8px;
  border: 2px solid transparent;
  border-radius: 10px;
  background-color: transparent;
}
window.svitek .ws-row:hover { background-color: alpha(#222, 0.10); }
window.svitek .ws-row.focused {
  border-color: #89b4fa;
  background-color: alpha(#89b4fa, 0.14);
}
window.svitek .ws-row.previewing {
  border-color: alpha(#89b4fa, 0.6);
  background-color: alpha(#89b4fa, 0.07);
}
window.svitek .ws-card { padding: 8px; }
window.svitek .thumb {
  border-radius: 6px;
  background-color: alpha(#333, 0.13);
}
window.svitek .ws-name {
  margin: 4px;
  padding: 1px 6px;
  border-radius: 4px;
  font-size: 88%;
  font-weight: bold;
  color: #222;
  background-color: alpha(#000000, 0.55);
}
window.svitek .hint { font-size: 85%; color: #333; }
window.svitek .wins { margin-top: 1px; }
window.svitek .card-wins { margin-top: 3px; }
window.svitek .title { font-size: 95%; color: #222; }
window.svitek .win-focused { font-weight: bold; color: #89b4fa; }
window.svitek .appid { font-size: 82%; color: #333; }
window.svitek .dim { font-size: 90%; color: #333; font-style: italic; }
window.svitek scrollbar { background: none; }
";
    assert_eq!(stylesheet(&colors), expected);
}

// -- layout ------------------------------------------------------------------

#[test]
fn panel_width_leaves_room_for_the_text_column() {
    let cfg = Config::default();
    let w = panel_width(cfg.thumbnail_width as i32);
    assert!(w > cfg.thumbnail_width as i32 + TEXT_COLUMN_WIDTH);
    assert_eq!(w, 240 + 260 + 46);
    assert_eq!(CHROME_WIDTH, 46);
}

#[test]
fn a_card_is_exactly_as_wide_as_its_thumbnail_plus_its_chrome() {
    assert_eq!(card_width(240), 240 + 20);
    assert_eq!(card_width(80), 100);
    // …and the strip is the cards, the gaps between them, and its padding.
    assert_eq!(strip_width(1, 240), 260 + 16);
    assert_eq!(strip_width(3, 240), 3 * 260 + 2 * 10 + 16);
    // Nine cards want more than a 1280 px output has: that is the case the
    // horizontal scrollbar exists for.
    assert!(strip_width(9, 240) > 1280);
    assert!(strip_width(4, 240) < 1280);
    // No gap to count when there is nothing to gap.
    assert_eq!(strip_width(0, 240), 16);
}

#[test]
fn the_frame_is_a_strip_in_the_middle_or_a_column_at_an_edge() {
    assert_eq!(
        frame_layout(Position::Center, 240),
        FrameLayout {
            strip: true,
            spacing: 10,
            halign: Alignment::Center,
            valign: Alignment::Center,
            width: None,
            overlay_scrolling: false,
        }
    );
    let left = frame_layout(Position::Left, 240);
    assert_eq!((left.strip, left.spacing, left.width), (false, 6, Some(546)));
    assert_eq!((left.halign, left.valign), (Alignment::Start, Alignment::Fill));
    assert_eq!(frame_layout(Position::Right, 240).halign, Alignment::End);
}

fn thumb(width: u32, height: u32, bytes: usize) -> Thumbnail {
    Thumbnail { width, height, rgba: vec![0; bytes], taken_at: 0 }
}

#[test]
fn a_thumbnail_keeps_its_shape_and_a_broken_one_is_not_shown() {
    let none = ThumbLook { picture: false, width: 240, height: 135 };
    assert_eq!(thumb_look(None, 240), none);
    assert_eq!(
        thumb_look(Some(&thumb(100, 50, 100 * 50 * 4)), 240),
        ThumbLook { picture: true, width: 240, height: 120 }
    );
    // Too few bytes, or no pixels at all.
    assert_eq!(thumb_look(Some(&thumb(100, 50, 100 * 50 * 4 - 1)), 240), none);
    assert_eq!(thumb_look(Some(&thumb(0, 50, 0)), 240), none);
    assert_eq!(thumb_look(Some(&thumb(100, 0, 0)), 240), none);
    // Never less than one row.
    assert_eq!(thumb_look(Some(&thumb(1000, 1, 4000)), 240).height, 1);
}

fn window(id: i64, title: &str, app_id: Option<&str>) -> WindowInfo {
    WindowInfo { id, title: title.to_string(), app_id: app_id.map(str::to_string), focused: false }
}

fn workspace(n: i64) -> WorkspaceInfo {
    WorkspaceInfo {
        id: 1,
        num: Some(1),
        name: "1".to_string(),
        output: "HEADLESS-1".to_string(),
        focused: true,
        visible: true,
        windows: (0..n).map(|i| window(i, &format!("w{i}"), Some("foot"))).collect(),
    }
}

#[test]
fn a_row_collapses_the_windows_it_has_no_room_for() {
    assert_eq!(window_list(&workspace(0), false), vec![Line::Nothing]);
    assert_eq!(window_list(&workspace(6), false).len(), 6);
    let lines = window_list(&workspace(8), false);
    assert_eq!(lines.len(), 7);
    assert_eq!(lines[6], Line::More { text: "+2 more".to_string() });
    assert_eq!(lines[5], window_line(&window(5, "w5", Some("foot"))));
    let card = window_list(&workspace(14), true);
    assert_eq!(card.len(), 4);
    assert_eq!(card[3], Line::More { text: "+11 more".to_string() });
    assert_eq!(window_list(&workspace(3), true).len(), 3);
}

#[test]
fn a_window_without_title_or_app_id_still_has_a_line() {
    assert_eq!(
        window_line(&window(1, "", Some(""))),
        Line::Window { title: "(untitled)".to_string(), focused: false, app_id: None }
    );
    assert_eq!(
        window_line(&window(1, "vim", None)),
        Line::Window { title: "vim".to_string(), focused: false, app_id: None }
    );
    assert_eq!((title_chars(true), title_chars(false)), (8, 20));
    assert_eq!((app_id_chars(true), app_id_chars(false)), (8, 12));
}
