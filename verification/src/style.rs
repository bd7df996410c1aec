//! The stylesheet of the panel.

use crate::config::Colors;
use crate::text::{chars_of, decimal_text, trim};
use vstd::prelude::*;

verus! {

/// Padding and border of a row or card, in px. The stylesheet is generated from
/// these, so that it and the widths computed from them cannot drift apart.
pub const ROW_PADDING: u32 = 8;

pub const ROW_BORDER: u32 = 2;

/// Padding between the frame's background and the outermost rows.
pub const STRIP_PADDING: u32 = 8;

/// Background of the part of the surface that is not the panel. It has to be
/// invisible and still catch the click that closes the panel.
pub const SCRIM_BG: &'static str = "transparent";

pub open spec fn is_hex_digit(c: char) -> bool {
    ('0' <= c && c <= '9') || ('a' <= c && c <= 'f') || ('A' <= c && c <= 'F')
}

pub open spec fn is_letter(c: char) -> bool {
    ('a' <= c && c <= 'z') || ('A' <= c && c <= 'Z')
}

/// Whether `v` is a plain `#rgb`, `#rgba`, `#rrggbb` or `#rrggbbaa`.
pub open spec fn is_hex_color(v: Seq<char>) -> bool {
    &&& v.len() == 4 || v.len() == 5 || v.len() == 7 || v.len() == 9
    &&& v[0] == '#'
    &&& forall|i: int| 1 <= i < v.len() ==> is_hex_digit(#[trigger] v[i])
}

/// Whether `v` could be the name of a colour.
pub open spec fn is_bare_name(v: Seq<char>) -> bool {
    &&& 1 <= v.len() <= 32
    &&& forall|i: int| 0 <= i < v.len() ==> is_letter(#[trigger] v[i])
}

/// The colour that a configured value stands for.
pub open spec fn color_of(value: Seq<char>, fallback: Seq<char>) -> Seq<char> {
    let v = crate::text::trimmed(value);
    if is_hex_color(v) || is_bare_name(v) {
        v
    } else {
        fallback
    }
}

fn hex_color(v: &Vec<char>) -> (r: bool)
    ensures
        r == is_hex_color(v@),
{
    let n: usize = v.len();
    if n != 4 && n != 5 && n != 7 && n != 9 {
        return false;
    }
    if v[0] != '#' {
        return false;
    }
    for i in 1..n
        invariant
            n == v@.len(),
            forall|k: int| 1 <= k < i ==> is_hex_digit(#[trigger] v@[k]),
    {
        let c = v[i];
        if !(('0' <= c && c <= '9') || ('a' <= c && c <= 'f') || ('A' <= c && c <= 'F')) {
            assert(!is_hex_digit(v@[i as int]));
            return false;
        }
    }
    true
}

fn bare_name(v: &Vec<char>) -> (r: bool)
    ensures
        r == is_bare_name(v@),
{
    let n: usize = v.len();
    if n == 0 || n > 32 {
        return false;
    }
    for i in 0..n
        invariant
            n == v@.len(),
            forall|k: int| 0 <= k < i ==> is_letter(#[trigger] v@[k]),
    {
        let c = v[i];
        if !(('a' <= c && c <= 'z') || ('A' <= c && c <= 'Z')) {
            assert(!is_letter(v@[i as int]));
            return false;
        }
    }
    true
}

/// Colours come from a file the user edits; anything that is not a plain hex
/// literal or a bare name is replaced by `fallback`, so that a typo cannot
/// inject arbitrary CSS into the generated stylesheet.
pub fn css_color(value: &str, fallback: &str) -> (r: String)
    ensures
        r@ == color_of(value@, fallback@),
{
    let v = trim(value);
    let chars = chars_of(&v);
    if hex_color(&chars) || bare_name(&chars) {
        v
    } else {
        fallback.to_owned()
    }
}

/// A length in the stylesheet.
pub open spec fn px(n: u32) -> Seq<char> {
    crate::text::decimal(n as nat)
}

/// The part of the surface that is not the panel.
pub open spec fn surface_rule_text(fg: Seq<char>) -> Seq<char> {
    "window.svitek { background-color: "@
        + SCRIM_BG@
        + "; color: "@
        + fg
        + "; }\n"@
}

fn surface_rule(fg: &str) -> (r: String)
    ensures
        r@ == surface_rule_text(fg@),
{
    let mut css = "window.svitek { background-color: ".to_owned();
    css.append(SCRIM_BG);
    css.append("; color: ");
    css.append(fg);
    css.append("; }\n");
    css
}

/// The panel proper.
pub open spec fn frame_rules_text(bg: Seq<char>) -> Seq<char> {
    "window.svitek scrolledwindow,\nwindow.svitek viewport { background: none; background-color: transparent; }\nwindow.svitek scrolledwindow.panel { background-color: "@
        + bg
        + "; }\n"@
}

fn frame_rules(bg: &str) -> (r: String)
    ensures
        r@ == frame_rules_text(bg@),
{
    let mut css = "window.svitek scrolledwindow,\nwindow.svitek viewport { background: none; background-color: transparent; }\nwindow.svitek scrolledwindow.panel { background-color: ".to_owned();
    css.append(bg);
    css.append("; }\n");
    css
}

/// The column, and the strip of cards.
pub open spec fn list_rules_text() -> Seq<char> {
    "window.svitek .ws-list { padding: "@
        + px(STRIP_PADDING)
        + "px; }\nwindow.svitek .ws-strip { padding: "@
        + px(STRIP_PADDING)
        + "px; }\n"@
}

fn list_rules() -> (r: String)
    ensures
        r@ == list_rules_text(),
{
    let mut css = "window.svitek .ws-list { padding: ".to_owned();
    css.append(&decimal_text(STRIP_PADDING as u64));
    css.append("px; }\nwindow.svitek .ws-strip { padding: ");
    css.append(&decimal_text(STRIP_PADDING as u64));
    css.append("px; }\n");
    css
}

/// A row, or a card.
pub open spec fn row_rules_text(fg: Seq<char>) -> Seq<char> {
    "window.svitek .ws-row {\n  padding: "@
        + px(ROW_PADDING)
        + "px;\n  border: "@
        + px(ROW_BORDER)
        + "px solid transparent;\n  border-radius: 10px;\n  background-color: transparent;\n}\nwindow.svitek .ws-row:hover { background-color: alpha("@
        + fg
        + ", 0.10); }\n"@
}

fn row_rules(fg: &str) -> (r: String)
    ensures
        r@ == row_rules_text(fg@),
{
    let mut css = "window.svitek .ws-row {\n  padding: ".to_owned();
    css.append(&decimal_text(ROW_PADDING as u64));
    css.append("px;\n  border: ");
    css.append(&decimal_text(ROW_BORDER as u64));
    css.append(
        "px solid transparent;\n  border-radius: 10px;\n  background-color: transparent;\n}\nwindow.svitek .ws-row:hover { background-color: alpha(",
    );
    css.append(fg);
    css.append(", 0.10); }\n");
    css
}

/// The row the user came from, and the one being previewed.
pub open spec fn mark_rules_text(focused: Seq<char>) -> Seq<char> {
    "window.svitek .ws-row.focused {\n  border-color: "@
        + focused
        + ";\n  background-color: alpha("@
        + focused
        + ", 0.14);\n}\nwindow.svitek .ws-row.previewing {\n  border-color: alpha("@
        + focused
        + ", 0.6);\n  background-color: alpha("@
        + focused
        + ", 0.07);\n}\n"@
}

fn mark_rules(focused: &str) -> (r: String)
    ensures
        r@ == mark_rules_text(focused@),
{
    let mut css = "window.svitek .ws-row.focused {\n  border-color: ".to_owned();
    css.append(focused);
    css.append(";\n  background-color: alpha(");
    css.append(focused);
    css.append(", 0.14);\n}\nwindow.svitek .ws-row.previewing {\n  border-color: alpha(");
    css.append(focused);
    css.append(", 0.6);\n  background-color: alpha(");
    css.append(focused);
    css.append(", 0.07);\n}\n");
    css
}

/// What only a card needs, and the thumbnail.
pub open spec fn thumb_rules_text(dim: Seq<char>) -> Seq<char> {
    "window.svitek .ws-card { padding: "@
        + px(ROW_PADDING)
        + "px; }\nwindow.svitek .thumb {\n  border-radius: 6px;\n  background-color: alpha("@
        + dim
        + ", 0.13);\n}\n"@
}

fn thumb_rules(dim: &str) -> (r: String)
    ensures
        r@ == thumb_rules_text(dim@),
{
    let mut css = "window.svitek .ws-card { padding: ".to_owned();
    css.append(&decimal_text(ROW_PADDING as u64));
    css.append(
        "px; }\nwindow.svitek .thumb {\n  border-radius: 6px;\n  background-color: alpha(",
    );
    css.append(dim);
    css.append(", 0.13);\n}\n");
    css
}

/// The name on the thumbnail.
pub open spec fn name_rule_text(fg: Seq<char>) -> Seq<char> {
    "window.svitek .ws-name {\n  margin: 4px;\n  padding: 1px 6px;\n  border-radius: 4px;\n  font-size: 88%;\n  font-weight: bold;\n  color: "@
        + fg
        + ";\n  background-color: alpha(#000000, 0.55);\n}\n"@
}

fn name_rule(fg: &str) -> (r: String)
    ensures
        r@ == name_rule_text(fg@),
{
    let mut css = "window.svitek .ws-name {\n  margin: 4px;\n  padding: 1px 6px;\n  border-radius: 4px;\n  font-size: 88%;\n  font-weight: bold;\n  color: ".to_owned();
    css.append(fg);
    css.append(";\n  background-color: alpha(#000000, 0.55);\n}\n");
    css
}

/// The hint in place of a thumbnail, and the room for the windows.
pub open spec fn hint_rules_text(dim: Seq<char>) -> Seq<char> {
    "window.svitek .hint { font-size: 85%; color: "@
        + dim
        + "; }\nwindow.svitek .wins { margin-top: 1px; }\nwindow.svitek .card-wins { margin-top: 3px; }\n"@
}

fn hint_rules(dim: &str) -> (r: String)
    ensures
        r@ == hint_rules_text(dim@),
{
    let mut css = "window.svitek .hint { font-size: 85%; color: ".to_owned();
    css.append(dim);
    css.append(
        "; }\nwindow.svitek .wins { margin-top: 1px; }\nwindow.svitek .card-wins { margin-top: 3px; }\n",
    );
    css
}

/// The lines of the windows.
pub open spec fn window_rules_text(fg: Seq<char>, focused: Seq<char>, dim: Seq<char>) -> Seq<char> {
    "window.svitek .title { font-size: 95%; color: "@
        + fg
        + "; }\nwindow.svitek .win-focused { font-weight: bold; color: "@
        + focused
        + "; }\nwindow.svitek .appid { font-size: 82%; color: "@
        + dim
        + "; }\nwindow.svitek .dim { font-size: 90%; color: "@
        + dim
        + "; font-style: italic; }\nwindow.svitek scrollbar { background: none; }\n"@
}

fn window_rules(fg: &str, focused: &str, dim: &str) -> (r: String)
    ensures
        r@ == window_rules_text(fg@, focused@, dim@),
{
    let mut css = "window.svitek .title { font-size: 95%; color: ".to_owned();
    css.append(fg);
    css.append("; }\nwindow.svitek .win-focused { font-weight: bold; color: ");
    css.append(focused);
    css.append("; }\nwindow.svitek .appid { font-size: 82%; color: ");
    css.append(dim);
    css.append("; }\nwindow.svitek .dim { font-size: 90%; color: ");
    css.append(dim);
    css.append("; font-style: italic; }\nwindow.svitek scrollbar { background: none; }\n");
    css
}

/// The stylesheet for these colours.
pub open spec fn sheet(
    bg: Seq<char>,
    fg: Seq<char>,
    dim: Seq<char>,
    focused: Seq<char>,
) -> Seq<char> {
    surface_rule_text(fg) + frame_rules_text(bg) + list_rules_text() + row_rules_text(fg) + mark_rules_text(focused) + thumb_rules_text(dim) + name_rule_text(fg) + hint_rules_text(dim) + window_rules_text(fg, focused, dim)
}

/// The colours a stylesheet is made with: those configured, or the default in
/// place of one that is no colour.
pub open spec fn sheet_for(colors: Colors) -> Seq<char> {
    sheet(
        color_of(colors.background@, "#1e1e2ecc"@),
        color_of(colors.foreground@, "#cdd6f4"@),
        color_of(colors.dim@, "#a6adc8"@),
        color_of(colors.focused@, "#89b4fa"@),
    )
}

/// The stylesheet for the configured colours.
pub fn stylesheet(colors: &Colors) -> (r: String)
    ensures
        r@ == sheet_for(*colors),
{
    let bg = css_color(&colors.background, "#1e1e2ecc");
    let fg = css_color(&colors.foreground, "#cdd6f4");
    let dim = css_color(&colors.dim, "#a6adc8");
    let focused = css_color(&colors.focused, "#89b4fa");
    let mut css = surface_rule(&fg);
    css.append(&frame_rules(&bg));
    css.append(&list_rules());
    css.append(&row_rules(&fg));
    css.append(&mark_rules(&focused));
    css.append(&thumb_rules(&dim));
    css.append(&name_rule(&fg));
    css.append(&hint_rules(&dim));
    css.append(&window_rules(&fg, &focused, &dim));
    css
}

// -------------------------------------------------------------------- laws --

/// Being found in a text.
pub open spec fn found_in(text: Seq<char>, part: Seq<char>) -> bool {
    exists|i: int|
        0 <= i && i + part.len() <= text.len() && #[trigger] text.subrange(i, i + part.len())
            == part
}

proof fn lemma_found(a: Seq<char>, part: Seq<char>, b: Seq<char>)
    ensures
        found_in(a + part + b, part),
{
    let text = a + part + b;
    assert(text.subrange(a.len() as int, a.len() as int + part.len()) =~= part);
}

proof fn lemma_found_between(a: Seq<char>, b: Seq<char>, c: Seq<char>, part: Seq<char>)
    requires
        found_in(b, part),
    ensures
        found_in(a + b + c, part),
{
    let i = choose|i: int|
        0 <= i && i + part.len() <= b.len() && #[trigger] b.subrange(i, i + part.len()) == part;
    let at = a.len() + i;
    assert((a + b + c).subrange(at, at + part.len()) =~= part);
}

/// Every colour is found in the stylesheet.
#[verifier::rlimit(30)]
pub proof fn law_the_sheet_mentions_every_color(
    bg: Seq<char>,
    fg: Seq<char>,
    dim: Seq<char>,
    focused: Seq<char>,
)
    ensures
        found_in(sheet(bg, fg, dim, focused), bg),
        found_in(sheet(bg, fg, dim, focused), fg),
        found_in(sheet(bg, fg, dim, focused), dim),
        found_in(sheet(bg, fg, dim, focused), focused),
{
    let all = sheet(bg, fg, dim, focused);
    let surface = surface_rule_text(fg);
    let frame = frame_rules_text(bg);
    let lists = list_rules_text();
    let rows = row_rules_text(fg);
    let marks = mark_rules_text(focused);
    let thumbs = thumb_rules_text(dim);
    let after_thumbs = name_rule_text(fg) + hint_rules_text(dim) + window_rules_text(
        fg,
        focused,
        dim,
    );
    let none: Seq<char> = seq![];

    lemma_found(
        "window.svitek { background-color: "@ + SCRIM_BG@ + "; color: "@,
        fg,
        "; }\n"@,
    );
    let after_surface = frame + lists + rows + marks + thumbs + after_thumbs;
    assert(all =~= none + surface + after_surface);
    lemma_found_between(none, surface, after_surface, fg);

    lemma_found(
        "window.svitek scrolledwindow,\nwindow.svitek viewport { background: none; background-color: transparent; }\nwindow.svitek scrolledwindow.panel { background-color: "@,
        bg,
        "; }\n"@,
    );
    let after_frame = lists + rows + marks + thumbs + after_thumbs;
    assert(all =~= surface + frame + after_frame);
    lemma_found_between(surface, frame, after_frame, bg);

    let first = "window.svitek .ws-row.focused {\n  border-color: "@;
    let second = ";\n  background-color: alpha("@;
    let third = ", 0.14);\n}\nwindow.svitek .ws-row.previewing {\n  border-color: alpha("@;
    let fourth = ", 0.6);\n  background-color: alpha("@;
    lemma_found(
        first + focused + second + focused + third + focused + fourth,
        focused,
        ", 0.07);\n}\n"@,
    );
    let before_marks = surface + frame + lists + rows;
    assert(all =~= before_marks + marks + (thumbs + after_thumbs));
    lemma_found_between(before_marks, marks, thumbs + after_thumbs, focused);

    lemma_found(
        "window.svitek .ws-card { padding: "@ + px(ROW_PADDING)
            + "px; }\nwindow.svitek .thumb {\n  border-radius: 6px;\n  background-color: alpha("@,
        dim,
        ", 0.13);\n}\n"@,
    );
    let before_thumbs = before_marks + marks;
    assert(all =~= before_thumbs + thumbs + after_thumbs);
    lemma_found_between(before_thumbs, thumbs, after_thumbs, dim);
}

/// Whatever is configured, what ends up in the stylesheet is a `#` with letters
/// and digits behind it or letters alone, or the fallback: nothing that could
/// end a declaration.
pub proof fn law_a_color_cannot_break_out(value: Seq<char>, fallback: Seq<char>, i: int)
    requires
        color_of(value, fallback) != fallback,
        0 <= i < color_of(value, fallback).len(),
    ensures
        ({
            let c = color_of(value, fallback)[i];
            c == '#' || is_hex_digit(c) || is_letter(c)
        }),
{
}

/// A colour that is one is used as it is, without the blanks around it.
pub proof fn law_colors_are_kept(value: Seq<char>, fallback: Seq<char>)
    requires
        is_hex_color(crate::text::trimmed(value)) || is_bare_name(crate::text::trimmed(value)),
    ensures
        color_of(value, fallback) == crate::text::trimmed(value),
{
}

/// Whether `v` is `#` and three, four, six or eight hexadecimal digits.
pub open spec fn spells_hex(v: Seq<char>) -> bool {
    &&& v.len() == 4 || v.len() == 5 || v.len() == 7 || v.len() == 9
    &&& v[0] == '#'
    &&& forall|i: int|
        1 <= i < v.len() ==> ('0' <= #[trigger] v[i] && v[i] <= '9') || ('a' <= v[i] && v[i]
            <= 'f') || ('A' <= v[i] && v[i] <= 'F')
}

/// Whether `v` is one to thirty-two letters.
pub open spec fn spells_name(v: Seq<char>) -> bool {
    &&& 1 <= v.len() <= 32
    &&& forall|i: int|
        0 <= i < v.len() ==> ('a' <= #[trigger] v[i] && v[i] <= 'z') || ('A' <= v[i] && v[i]
            <= 'Z')
}

/// A value that spells a colour is that colour; one that does not, blanks around
/// it aside, is the fallback.
pub proof fn law_only_colors_are_colors(value: Seq<char>, fallback: Seq<char>)
    ensures
        spells_hex(value) || spells_name(value) ==> color_of(value, fallback) == value,
        !spells_hex(crate::text::trimmed(value)) && !spells_name(crate::text::trimmed(value))
            ==> color_of(value, fallback) == fallback,
        color_of(value, fallback) == fallback || spells_hex(color_of(value, fallback))
            || spells_name(color_of(value, fallback)),
{
    let v = crate::text::trimmed(value);
    if spells_hex(value) || spells_name(value) {
        let n = value.len() as int;
        assert(!crate::text::is_blank(value[0]));
        assert(!crate::text::is_blank(value[n - 1]));
        crate::text::lemma_trim_keeps_a_word(value);
        if spells_hex(value) {
            assert forall|i: int| 1 <= i < value.len() implies is_hex_digit(#[trigger] value[i]) by {}
        } else {
            assert forall|i: int| 0 <= i < value.len() implies is_letter(#[trigger] value[i]) by {}
        }
    }
    if is_hex_color(v) {
        assert forall|i: int| 1 <= i < v.len() implies ('0' <= #[trigger] v[i] && v[i] <= '9') || (
        'a' <= v[i] && v[i] <= 'f') || ('A' <= v[i] && v[i] <= 'F') by {
            assert(is_hex_digit(v[i]));
        }
        assert(spells_hex(v));
    } else if is_bare_name(v) {
        assert forall|i: int| 0 <= i < v.len() implies ('a' <= #[trigger] v[i] && v[i] <= 'z') || (
        'A' <= v[i] && v[i] <= 'Z') by {
            assert(is_letter(v[i]));
        }
        assert(spells_name(v));
    }
}

/// Each colour is used where it belongs: the background on the panel, the
/// foreground for titles, the dim one for identities, the focused one for the
/// border of the focused row and the focused window.
pub proof fn law_every_color_is_used_where_it_belongs(
    bg: Seq<char>,
    fg: Seq<char>,
    dim: Seq<char>,
    focused: Seq<char>,
)
    ensures
        ({
            let all = sheet(bg, fg, dim, focused);
            &&& found_in(
                all,
                "window.svitek scrolledwindow,\nwindow.svitek viewport { background: none; background-color: transparent; }\nwindow.svitek scrolledwindow.panel { background-color: "@
                    + bg,
            )
            &&& found_in(all, "window.svitek .ws-row.focused {\n  border-color: "@ + focused)
            &&& found_in(all, "window.svitek .title { font-size: 95%; color: "@ + fg)
            &&& found_in(
                all,
                "; }\nwindow.svitek .win-focused { font-weight: bold; color: "@ + focused,
            )
            &&& found_in(all, "; }\nwindow.svitek .appid { font-size: 82%; color: "@ + dim)
        }),
{
    let all = sheet(bg, fg, dim, focused);
    let none: Seq<char> = seq![];
    let surface = surface_rule_text(fg);
    let frame = frame_rules_text(bg);
    let marks = mark_rules_text(focused);
    let windows = window_rules_text(fg, focused, dim);
    let before_marks = surface + frame + list_rules_text() + row_rules_text(fg);
    let between = thumb_rules_text(dim) + name_rule_text(fg) + hint_rules_text(dim);
    let panel = "window.svitek scrolledwindow,\nwindow.svitek viewport { background: none; background-color: transparent; }\nwindow.svitek scrolledwindow.panel { background-color: "@
        + bg;
    lemma_found(none, panel, "; }\n"@);
    assert(frame =~= none + panel + "; }\n"@);
    let after_frame = list_rules_text() + row_rules_text(fg) + marks + between + windows;
    assert(all =~= surface + frame + after_frame);
    lemma_found_between(surface, frame, after_frame, panel);
    let border = "window.svitek .ws-row.focused {\n  border-color: "@ + focused;
    let after_border = ";\n  background-color: alpha("@ + focused
        + ", 0.14);\n}\nwindow.svitek .ws-row.previewing {\n  border-color: alpha("@ + focused
        + ", 0.6);\n  background-color: alpha("@ + focused + ", 0.07);\n}\n"@;
    lemma_found(none, border, after_border);
    assert(marks =~= none + border + after_border);
    assert(all =~= before_marks + marks + (between + windows));
    lemma_found_between(before_marks, marks, between + windows, border);
    let first = "window.svitek .title { font-size: 95%; color: "@ + fg;
    let second = "; }\nwindow.svitek .win-focused { font-weight: bold; color: "@ + focused;
    let third = "; }\nwindow.svitek .appid { font-size: 82%; color: "@ + dim;
    let rest = "; }\nwindow.svitek .dim { font-size: 90%; color: "@ + dim
        + "; font-style: italic; }\nwindow.svitek scrollbar { background: none; }\n"@;
    let before_windows = before_marks + marks + between;
    assert(all =~= before_windows + windows + none);
    lemma_found(none, first, second + third + rest);
    assert(windows =~= none + first + (second + third + rest));
    lemma_found_between(before_windows, windows, none, first);
    lemma_found(first, second, third + rest);
    assert(windows =~= first + second + (third + rest));
    lemma_found_between(before_windows, windows, none, second);
    lemma_found(first + second, third, rest);
    assert(windows =~= first + second + third + rest);
    lemma_found_between(before_windows, windows, none, third);
}

/// The stylesheet is made with the colours that are configured, each in its own
/// place.
pub proof fn law_the_sheet_is_made_with_the_configured_colors(colors: Colors)
    ensures
        sheet_for(colors) == sheet(
            if spells_color(colors.background@) {
                crate::text::trimmed(colors.background@)
            } else {
                "#1e1e2ecc"@
            },
            if spells_color(colors.foreground@) {
                crate::text::trimmed(colors.foreground@)
            } else {
                "#cdd6f4"@
            },
            if spells_color(colors.dim@) {
                crate::text::trimmed(colors.dim@)
            } else {
                "#a6adc8"@
            },
            if spells_color(colors.focused@) {
                crate::text::trimmed(colors.focused@)
            } else {
                "#89b4fa"@
            },
        ),
{
    lemma_spelled(colors.background@, "#1e1e2ecc"@);
    lemma_spelled(colors.foreground@, "#cdd6f4"@);
    lemma_spelled(colors.dim@, "#a6adc8"@);
    lemma_spelled(colors.focused@, "#89b4fa"@);
}

/// Whether a value spells a colour, blanks around it aside.
pub open spec fn spells_color(value: Seq<char>) -> bool {
    spells_hex(crate::text::trimmed(value)) || spells_name(crate::text::trimmed(value))
}

proof fn lemma_spelled(value: Seq<char>, fallback: Seq<char>)
    ensures
        color_of(value, fallback) == if spells_color(value) {
            crate::text::trimmed(value)
        } else {
            fallback
        },
{
    let v = crate::text::trimmed(value);
    law_only_colors_are_colors(value, fallback);
    if spells_hex(v) {
        assert forall|i: int| 1 <= i < v.len() implies is_hex_digit(#[trigger] v[i]) by {}
    } else if spells_name(v) {
        assert forall|i: int| 0 <= i < v.len() implies is_letter(#[trigger] v[i]) by {}
    }
}

/// The other places of the colours: the foreground for what has no colour of its
/// own, for a row under the pointer and for the name on a thumbnail; the dim one
/// behind a thumbnail and for hints; the focused one, faintly, for the row that
/// is previewed.
pub proof fn law_every_color_is_used_in_its_other_places(
    bg: Seq<char>,
    fg: Seq<char>,
    dim: Seq<char>,
    focused: Seq<char>,
)
    ensures
        ({
            let all = sheet(bg, fg, dim, focused);
            &&& found_in(all, "; color: "@ + fg + "; }\n"@)
            &&& found_in(all, fg + ", 0.10); }\n"@)
            &&& found_in(
                all,
                ", 0.14);\n}\nwindow.svitek .ws-row.previewing {\n  border-color: alpha("@
                    + focused,
            )
            &&& found_in(all, dim + ", 0.13);\n}\n"@)
            &&& found_in(all, fg + ";\n  background-color: alpha(#000000, 0.55);\n}\n"@)
            &&& found_in(all, "window.svitek .hint { font-size: 85%; color: "@ + dim)
        }),
{
    let none: Seq<char> = seq![];
    lemma_after(
        "window.svitek { background-color: "@ + SCRIM_BG@,
        "; color: "@,
        fg,
        "; }\n"@,
    );
    lemma_in_sheet(bg, fg, dim, focused, "; color: "@ + fg + "; }\n"@);
    lemma_ends(
        "window.svitek .ws-row {\n  padding: "@ + px(ROW_PADDING) + "px;\n  border: "@ + px(ROW_BORDER)
            + "px solid transparent;\n  border-radius: 10px;\n  background-color: transparent;\n}\nwindow.svitek .ws-row:hover { background-color: alpha("@,
        fg,
        ", 0.10); }\n"@,
    );
    lemma_in_sheet(bg, fg, dim, focused, fg + ", 0.10); }\n"@);
    let third = ", 0.14);\n}\nwindow.svitek .ws-row.previewing {\n  border-color: alpha("@;
    lemma_within(
        "window.svitek .ws-row.focused {\n  border-color: "@ + focused
            + ";\n  background-color: alpha("@ + focused,
        third,
        focused,
        ", 0.6);\n  background-color: alpha("@,
        focused,
        ", 0.07);\n}\n"@,
    );
    lemma_in_sheet(bg, fg, dim, focused, third + focused);
    lemma_ends(
        "window.svitek .ws-card { padding: "@ + px(ROW_PADDING)
            + "px; }\nwindow.svitek .thumb {\n  border-radius: 6px;\n  background-color: alpha("@,
        dim,
        ", 0.13);\n}\n"@,
    );
    lemma_in_sheet(bg, fg, dim, focused, dim + ", 0.13);\n}\n"@);
    lemma_ends(
        "window.svitek .ws-name {\n  margin: 4px;\n  padding: 1px 6px;\n  border-radius: 4px;\n  font-size: 88%;\n  font-weight: bold;\n  color: "@,
        fg,
        ";\n  background-color: alpha(#000000, 0.55);\n}\n"@,
    );
    lemma_in_sheet(
        bg,
        fg,
        dim,
        focused,
        fg + ";\n  background-color: alpha(#000000, 0.55);\n}\n"@,
    );
    let hint = "window.svitek .hint { font-size: 85%; color: "@ + dim;
    lemma_found(none, hint, "; }\nwindow.svitek .wins { margin-top: 1px; }\nwindow.svitek .card-wins { margin-top: 3px; }\n"@);
    assert(none + hint =~= hint);
    lemma_in_sheet(bg, fg, dim, focused, hint);
}

/// The last two parts of three.
proof fn lemma_ends(a: Seq<char>, b: Seq<char>, c: Seq<char>)
    ensures
        found_in(a + b + c, b + c),
{
    let text = a + b + c;
    let part = b + c;
    let at = a.len() as int;
    assert(text.subrange(at, at + part.len()) =~= part);
}

/// The last three parts of four.
proof fn lemma_after(a: Seq<char>, b: Seq<char>, c: Seq<char>, d: Seq<char>)
    ensures
        found_in(a + b + c + d, b + c + d),
{
    let text = a + b + c + d;
    let part = b + c + d;
    let at = a.len() as int;
    assert(text.subrange(at, at + part.len()) =~= part);
}

/// The second and the third part of six.
proof fn lemma_within(
    a: Seq<char>,
    b: Seq<char>,
    c: Seq<char>,
    d: Seq<char>,
    e: Seq<char>,
    f: Seq<char>,
)
    ensures
        found_in(a + b + c + d + e + f, b + c),
{
    let text = a + b + c + d + e + f;
    let part = b + c;
    let at = a.len() as int;
    assert(text.subrange(at, at + part.len()) =~= part);
}

proof fn lemma_found_either(a: Seq<char>, b: Seq<char>, part: Seq<char>)
    requires
        found_in(a, part) || found_in(b, part),
    ensures
        found_in(a + b, part),
{
    let none: Seq<char> = seq![];
    if found_in(a, part) {
        lemma_found_between(none, a, b, part);
        assert(none + a + b =~= a + b);
    } else {
        lemma_found_between(a, b, none, part);
        assert(a + b + none =~= a + b);
    }
}

/// What is found in a rule is found in the sheet.
proof fn lemma_in_sheet(
    bg: Seq<char>,
    fg: Seq<char>,
    dim: Seq<char>,
    focused: Seq<char>,
    part: Seq<char>,
)
    requires
        found_in(surface_rule_text(fg), part) || found_in(row_rules_text(fg), part) || found_in(
            mark_rules_text(focused),
            part,
        ) || found_in(thumb_rules_text(dim), part) || found_in(name_rule_text(fg), part)
            || found_in(hint_rules_text(dim), part),
    ensures
        found_in(sheet(bg, fg, dim, focused), part),
{
    let a = surface_rule_text(fg);
    let b = a + frame_rules_text(bg);
    let c = b + list_rules_text();
    let d = c + row_rules_text(fg);
    let e = d + mark_rules_text(focused);
    let f = e + thumb_rules_text(dim);
    let g = f + name_rule_text(fg);
    let h = g + hint_rules_text(dim);
    if found_in(a, part) {
        lemma_found_either(a, frame_rules_text(bg), part);
        lemma_found_either(b, list_rules_text(), part);
    }
    if found_in(c, part) || found_in(row_rules_text(fg), part) {
        lemma_found_either(c, row_rules_text(fg), part);
    }
    if found_in(d, part) || found_in(mark_rules_text(focused), part) {
        lemma_found_either(d, mark_rules_text(focused), part);
    }
    if found_in(e, part) || found_in(thumb_rules_text(dim), part) {
        lemma_found_either(e, thumb_rules_text(dim), part);
    }
    if found_in(f, part) || found_in(name_rule_text(fg), part) {
        lemma_found_either(f, name_rule_text(fg), part);
    }
    if found_in(g, part) || found_in(hint_rules_text(dim), part) {
        lemma_found_either(g, hint_rules_text(dim), part);
    }
    lemma_found_either(h, window_rules_text(fg, focused, dim), part);
}

} // verus!
