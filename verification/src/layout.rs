//! What the panel looks like: widths, the lines of a row, and the size of a
//! thumbnail on it.

use crate::config::Position;
use crate::model::{Thumbnail, ThumbnailView, WindowInfo, WindowView, WorkspaceInfo, WorkspaceView};
use crate::style::{ROW_BORDER, ROW_PADDING, STRIP_PADDING};
use crate::text::{decimal_text, same_text};
use vstd::prelude::*;

verus! {

/// Width of the text column (window titles) in px.
pub const TEXT_COLUMN_WIDTH: i32 = 260;

/// Horizontal padding and spacing that surrounds the thumbnail and the text
/// column: row padding and border, row spacing, list padding.
pub const CHROME_WIDTH: i32 = 8 * 2 + 2 * 2 + 10 + 8 * 2;

/// How many window lines a row shows before collapsing into "+N more".
pub const MAX_WINDOW_LINES: usize = 6;

/// The same for a card. Cards stand side by side, so height is the scarce
/// dimension there, and every card is as tall as the tallest.
pub const MAX_CARD_LINES: usize = 3;

/// Horizontal chrome around a card's thumbnail: padding and border, both sides.
pub const CARD_CHROME_WIDTH: i32 = 20;

/// Gap between two cards in the strip.
pub const CARD_SPACING: i32 = 10;

/// Gap between two rows in the column.
pub const ROW_SPACING: i32 = 6;

// ------------------------------------------------------------------ widths --

/// The width of one card.
pub open spec fn card_width_of(thumb_width: int) -> int {
    thumb_width + 2 * (ROW_PADDING + ROW_BORDER)
}

/// What a strip of `cards` cards asks for.
pub open spec fn strip_width_of(cards: int, thumb_width: int) -> int {
    let gaps = if cards > 0 {
        cards - 1
    } else {
        0
    };
    cards * card_width_of(thumb_width) + gaps * CARD_SPACING + 2 * STRIP_PADDING
}

/// The width of one card in the centered strip: its thumbnail plus the padding
/// and border around it, and nothing else. The window lines under the
/// thumbnail are capped so that they can never widen it.
pub fn card_width(thumb_width: i32) -> (r: i32)
    requires
        card_width_of(thumb_width as int) <= i32::MAX,
    ensures
        r == card_width_of(thumb_width as int),
{
    thumb_width + CARD_CHROME_WIDTH
}

/// What the whole strip asks for: `cards` cards, the gaps between them, and the
/// strip's own padding.
pub fn strip_width(cards: usize, thumb_width: i32) -> (r: i32)
    requires
        cards <= i32::MAX,
        card_width_of(thumb_width as int) <= i32::MAX,
        i32::MIN <= cards * card_width_of(thumb_width as int),
        (cards - 1) * CARD_SPACING <= i32::MAX,
        strip_width_of(cards as int, thumb_width as int) <= i32::MAX,
    ensures
        r == strip_width_of(cards as int, thumb_width as int),
{
    let n: i32 = cards as i32;
    let gaps: i32 = if n > 0 {
        n - 1
    } else {
        0
    };
    let card: i32 = card_width(thumb_width);
    n * card + gaps * CARD_SPACING + 2 * STRIP_PADDING as i32
}

/// The width of the column: the thumbnail, the text column beside it, and what
/// surrounds them.
pub fn panel_width(thumb_width: i32) -> (r: i32)
    requires
        thumb_width + TEXT_COLUMN_WIDTH + CHROME_WIDTH <= i32::MAX,
    ensures
        r == thumb_width + TEXT_COLUMN_WIDTH + CHROME_WIDTH,
{
    thumb_width + TEXT_COLUMN_WIDTH + CHROME_WIDTH
}

// ------------------------------------------------------------------- frame --

/// Where a widget goes in the room it has.
#[derive(Debug, Clone, Copy, PartialEq, Eq, Structural)]
pub enum Alignment {
    Start,
    Center,
    End,
    Fill,
}

/// The frame of the panel.
#[derive(Debug, Clone, Copy, PartialEq, Eq, Structural)]
pub struct FrameLayout {
    /// A strip of cards side by side, scrolling sideways, that is no larger
    /// than its cards; otherwise a column of rows, scrolling up and down.
    pub strip: bool,
    pub spacing: i32,
    pub halign: Alignment,
    pub valign: Alignment,
    /// The width asked for; none for a strip, which asks for that of its cards.
    pub width: Option<i32>,
    /// Whether the scrollbar only fades in over the contents. A strip that does
    /// not fit says so by a bar that is always there.
    pub overlay_scrolling: bool,
}

/// The frame for this position.
pub open spec fn frame_of(position: Position, thumb_width: i32) -> FrameLayout {
    match position {
        Position::Center => FrameLayout {
            strip: true,
            spacing: CARD_SPACING,
            halign: Alignment::Center,
            valign: Alignment::Center,
            width: None,
            overlay_scrolling: false,
        },
        _ => FrameLayout {
            strip: false,
            spacing: ROW_SPACING,
            halign: if position is Right {
                Alignment::End
            } else {
                Alignment::Start
            },
            valign: Alignment::Fill,
            width: Some((thumb_width + TEXT_COLUMN_WIDTH + CHROME_WIDTH) as i32),
            overlay_scrolling: true,
        },
    }
}

/// The frame for this position: a strip in the middle, or a column of full
/// height at the edge.
pub fn frame_layout(position: Position, thumb_width: i32) -> (r: FrameLayout)
    requires
        thumb_width + TEXT_COLUMN_WIDTH + CHROME_WIDTH <= i32::MAX,
    ensures
        r == frame_of(position, thumb_width),
{
    match position {
        Position::Center => FrameLayout {
            strip: true,
            spacing: CARD_SPACING,
            halign: Alignment::Center,
            valign: Alignment::Center,
            width: None,
            overlay_scrolling: false,
        },
        _ => FrameLayout {
            strip: false,
            spacing: ROW_SPACING,
            halign: match position {
                Position::Right => Alignment::End,
                _ => Alignment::Start,
            },
            valign: Alignment::Fill,
            width: Some(panel_width(thumb_width)),
            overlay_scrolling: true,
        },
    }
}

// --------------------------------------------------------------- thumbnail --

/// A thumbnail on a row.
#[derive(Debug, Clone, Copy, PartialEq, Eq, Structural)]
pub struct ThumbLook {
    /// Whether there is a picture; otherwise a hint that there is none yet.
    pub picture: bool,
    pub width: i32,
    pub height: i32,
}

/// Whether a thumbnail is one that can be shown: not empty, and with all its
/// bytes.
pub open spec fn is_whole(t: ThumbnailView) -> bool {
    t.width != 0 && t.height != 0 && t.rgba.len() >= t.width * t.height * 4
}

/// The height of a picture of the thumbnail at this width.
pub open spec fn height_at(t: ThumbnailView, thumb_width: i32) -> int {
    let h = (thumb_width * t.height) / (t.width as int);
    if h < 1 {
        1
    } else {
        h
    }
}

/// What a row shows: the thumbnail at its own aspect ratio, or room for one.
pub open spec fn look_of(t: Option<ThumbnailView>, thumb_width: i32) -> ThumbLook {
    match t {
        Some(t) => if is_whole(t) {
            ThumbLook { picture: true, width: thumb_width, height: height_at(t, thumb_width) as i32 }
        } else {
            look_of_none(thumb_width)
        },
        None => look_of_none(thumb_width),
    }
}

/// Room for a thumbnail of the usual shape.
pub open spec fn look_of_none(thumb_width: i32) -> ThumbLook {
    ThumbLook {
        picture: false,
        width: thumb_width,
        height: ((thumb_width * 9) / 16) as i32,
    }
}

/// What a row shows for this thumbnail. One that is empty or too short is not
/// shown.
pub fn thumb_look(thumb: Option<&Thumbnail>, thumb_width: i32) -> (r: ThumbLook)
    requires
        0 <= thumb_width,
        thumb_width * 9 <= i32::MAX,
    ensures
        r == look_of(thumb.deep_view(), thumb_width),
{
    if let Some(t) = thumb {
        let w: u32 = t.width;
        let h: u32 = t.height;
        assert(0 <= w * h <= 0xffff_ffff * 0xffff_ffff) by (nonlinear_arith)
            requires
                0 <= w <= 0xffff_ffff,
                0 <= h <= 0xffff_ffff,
        ;
        let needed: u128 = w as u128 * h as u128 * 4;
        if w != 0 && h != 0 && t.rgba.len() as u128 >= needed {
            assert(0 <= thumb_width * h <= 0x7fff_ffff * 0xffff_ffff) by (nonlinear_arith)
                requires
                    0 <= thumb_width <= 0x7fff_ffff,
                    0 <= h <= 0xffff_ffff,
            ;
            let scaled: i64 = thumb_width as i64 * h as i64 / w as i64;
            let height: i64 = if scaled < 1 {
                1
            } else {
                scaled
            };
            return ThumbLook {
                picture: true,
                width: thumb_width,
                height: #[verifier::truncate]
                (height as i32),
            };
        }
    }
    ThumbLook { picture: false, width: thumb_width, height: thumb_width * 9 / 16 }
}

// ------------------------------------------------------------------- lines --

/// One line of the window list of a row.
#[derive(Debug, PartialEq, Eq)]
pub enum Line {
    /// There are no windows.
    Nothing,
    Window { title: String, focused: bool, app_id: Option<String> },
    /// There are more windows than lines.
    More { text: String },
}

pub ghost enum LineView {
    Nothing,
    Window { title: Seq<char>, focused: bool, app_id: Option<Seq<char>> },
    More { text: Seq<char> },
}

impl DeepView for Line {
    type V = LineView;

    open spec fn deep_view(&self) -> LineView {
        match self {
            Line::Nothing => LineView::Nothing,
            Line::Window { title, focused, app_id } => LineView::Window {
                title: title@,
                focused: *focused,
                app_id: app_id.deep_view(),
            },
            Line::More { text } => LineView::More { text: text@ },
        }
    }
}

/// The line of a window: its title, or a word for one without, and its `app_id`
/// if it has one.
pub open spec fn line_of(w: WindowView) -> LineView {
    LineView::Window {
        title: if w.title.len() == 0 {
            "(untitled)"@
        } else {
            w.title
        },
        focused: w.focused,
        app_id: match w.app_id {
            Some(id) => if id.len() == 0 {
                None
            } else {
                Some(id)
            },
            None => None,
        },
    }
}

/// The most window lines a row or card has.
pub open spec fn most_lines(card: bool) -> nat {
    if card {
        MAX_CARD_LINES as nat
    } else {
        MAX_WINDOW_LINES as nat
    }
}

/// The lines of a workspace.
pub open spec fn lines_of(windows: Seq<WindowView>, card: bool) -> Seq<LineView> {
    let most = most_lines(card);
    if windows.len() == 0 {
        seq![LineView::Nothing]
    } else if windows.len() <= most {
        windows.map_values(|w: WindowView| line_of(w))
    } else {
        windows.take(most as int).map_values(|w: WindowView| line_of(w)).push(
            LineView::More {
                text: "+"@ + crate::text::decimal((windows.len() - most) as nat) + " more"@,
            },
        )
    }
}

fn is_empty_text(t: &str) -> (r: bool)
    ensures
        r == (t@.len() == 0),
{
    proof {
        reveal_strlit("");
        assert(t@.len() == 0 ==> t@ =~= ""@);
    }
    same_text(t, "")
}

/// The line of one window.
pub fn window_line(w: &WindowInfo) -> (r: Line)
    ensures
        r.deep_view() == line_of(w.deep_view()),
{
    let title = if is_empty_text(&w.title) {
        "(untitled)".to_owned()
    } else {
        w.title.clone()
    };
    let app_id = match &w.app_id {
        Some(id) => {
            if is_empty_text(id) {
                None
            } else {
                Some(id.clone())
            }
        },
        None => None,
    };
    Line::Window { title, focused: w.focused, app_id }
}

/// The window list of one workspace: `card` picks the compact form that goes
/// under a thumbnail in the strip, otherwise the one that goes beside it.
pub fn window_list(ws: &WorkspaceInfo, card: bool) -> (r: Vec<Line>)
    ensures
        r.deep_view() == lines_of(ws.deep_view().windows, card),
{
    let most: usize = if card {
        MAX_CARD_LINES
    } else {
        MAX_WINDOW_LINES
    };
    let total: usize = ws.windows.len();
    let ghost all = ws.deep_view().windows;
    let mut lines: Vec<Line> = Vec::new();
    if total == 0 {
        lines.push(Line::Nothing);
        assert(lines.deep_view() =~= seq![LineView::Nothing]);
        return lines;
    }
    let shown: usize = if total < most {
        total
    } else {
        most
    };
    for i in 0..shown
        invariant
            shown <= total,
            total == ws.windows@.len(),
            all == ws.deep_view().windows,
            lines@.len() == i,
            forall|k: int| 0 <= k < i ==> #[trigger] lines.deep_view()[k] == line_of(all[k]),
    {
        let ghost before = lines.deep_view();
        let line = window_line(&ws.windows[i]);
        assert(all[i as int] == ws.windows@[i as int].deep_view());
        let ghost view = line.deep_view();
        lines.push(line);
        assert(lines.deep_view() =~= before.push(view));
    }
    if total > most {
        let ghost before = lines.deep_view();
        assert(before =~= all.take(most as int).map_values(|w: WindowView| line_of(w)));
        let mut text = "+".to_owned();
        text.append(&decimal_text((total - most) as u64));
        text.append(" more");
        let line = Line::More { text };
        let ghost view = line.deep_view();
        lines.push(line);
        assert(lines.deep_view() =~= before.push(view));
    } else {
        assert(lines.deep_view() =~= all.map_values(|w: WindowView| line_of(w)));
    }
    lines
}

/// The natural width of a title, in characters.
pub fn title_chars(card: bool) -> (r: i32)
    ensures
        r == if card {
            8
        } else {
            20int
        },
{
    if card {
        8
    } else {
        20
    }
}

/// The natural width of an `app_id`, in characters.
pub fn app_id_chars(card: bool) -> (r: i32)
    ensures
        r == if card {
            8
        } else {
            12int
        },
{
    if card {
        8
    } else {
        12
    }
}

// -------------------------------------------------------------------- laws --

/// A row never has more lines than it has room for, and one line for what is
/// left out.
pub proof fn law_lines_are_capped(windows: Seq<WindowView>, card: bool)
    ensures
        1 <= lines_of(windows, card).len() <= most_lines(card) + 1,
        windows.len() > most_lines(card) <==> lines_of(windows, card).len() == most_lines(card) + 1,
{
}

/// Rows that differ in flags and titles alone have as many lines of the same
/// windows: only what is written on them changes.
pub proof fn law_flags_and_titles_change_no_lines(
    a: WorkspaceView,
    b: WorkspaceView,
    card: bool,
    i: int,
)
    requires
        crate::model::same_row(a, b),
        0 <= i < lines_of(a.windows, card).len(),
    ensures
        lines_of(a.windows, card).len() == lines_of(b.windows, card).len(),
        match (lines_of(a.windows, card)[i], lines_of(b.windows, card)[i]) {
            (LineView::Nothing, LineView::Nothing) => true,
            (
                LineView::Window { title: _, focused: _, app_id: x },
                LineView::Window { title: _, focused: _, app_id: y },
            ) => x == y,
            (LineView::More { text: x }, LineView::More { text: y }) => x == y,
            _ => false,
        },
{
    let most = most_lines(card);
    if i < a.windows.len() && i < most {
        assert(crate::model::same_window(a.windows[i], b.windows[i]));
    }
}

/// A strip is its cards, the gaps between them and its padding: one more card
/// takes a card and a gap more.
pub proof fn law_a_strip_grows_by_a_card_and_a_gap(cards: int, thumb_width: int)
    requires
        cards >= 1,
    ensures
        strip_width_of(cards + 1, thumb_width) == strip_width_of(cards, thumb_width) + card_width_of(
            thumb_width,
        ) + CARD_SPACING,
        strip_width_of(1, thumb_width) == card_width_of(thumb_width) + 2 * STRIP_PADDING,
{
    let w = card_width_of(thumb_width);
    assert((cards + 1) * w == cards * w + w) by (nonlinear_arith);
}

/// As many windows as there is room for, six on a row and three on a card, have
/// a line each, in their order: with their title, or a word for want of one,
/// their identity unless it is empty, and their focus. What is left out is
/// counted, and where there is no window that is said.
pub proof fn law_every_window_has_its_line(windows: Seq<WindowView>, card: bool, i: int)
    ensures
        ({
            let lines = lines_of(windows, card);
            let room: int = if card {
                3
            } else {
                6
            };
            &&& windows.len() == 0 ==> lines.len() == 1 && lines[0] is Nothing
            &&& 0 < windows.len() <= room ==> lines.len() == windows.len()
            &&& windows.len() > room ==> lines.len() == room + 1 && lines[room]
                == (LineView::More {
                text: "+"@ + crate::text::decimal((windows.len() - room) as nat) + " more"@,
            })
            &&& 0 <= i < windows.len() && i < room ==> {
                let w = windows[i];
                &&& lines[i] matches LineView::Window { title, focused, app_id }
                &&& focused == w.focused
                &&& w.title.len() > 0 ==> title == w.title
                &&& w.title.len() == 0 ==> title == "(untitled)"@
                &&& app_id == if w.app_id is Some && w.app_id->0.len() > 0 {
                    w.app_id
                } else {
                    None
                }
            }
        }),
{
}

/// A picture keeps the aspect ratio of its thumbnail at the width there is, cut
/// to whole rows, with one row at least; room without a picture is sixteen to
/// nine. A thumbnail that is empty or short of bytes is no picture.
pub proof fn law_a_picture_keeps_its_shape(t: Option<ThumbnailView>, thumb_width: i32)
    requires
        0 <= thumb_width,
        thumb_width * 9 <= i32::MAX,
        t matches Some(v) ==> v.width > 0 ==> thumb_width * v.height < 0x8000_0000 * v.width,
    ensures
        ({
            let r = look_of(t, thumb_width);
            &&& r.width == thumb_width
            &&& r.picture <==> (t matches Some(v) && v.width > 0 && v.height > 0 && v.rgba.len()
                >= v.width * v.height * 4)
            &&& r.picture ==> {
                let v = t->0;
                &&& r.height >= 1
                &&& r.height > 1 ==> r.height * v.width <= thumb_width * v.height
                &&& thumb_width * v.height < (r.height + 1) * v.width
            }
            &&& !r.picture ==> 16 * r.height <= 9 * thumb_width < 16 * (r.height + 1)
        }),
{
    let r = look_of(t, thumb_width);
    if let Some(v) = t {
        if is_whole(v) {
            let a = thumb_width * v.height;
            let w = v.width as int;
            let q = a / w;
            assert(a >= 0) by (nonlinear_arith)
                requires
                    a == thumb_width * v.height,
                    thumb_width >= 0,
                    v.height >= 0,
            ;
            vstd::arithmetic::div_mod::lemma_fundamental_div_mod(a, w);
            vstd::arithmetic::div_mod::lemma_mod_bound(a, w);
            assert(0 <= q < 0x8000_0000) by (nonlinear_arith)
                requires
                    0 <= a < 0x8000_0000 * w,
                    w >= 1,
                    q == a / w,
            ;
            assert(w * q == q * w && (q + 1) * w == q * w + w) by (nonlinear_arith);
            if q < 1 {
                assert(2 * w == w + w);
                assert((1 + 1) * w == w + w) by (nonlinear_arith);
            }
        }
    }
}

/// In the middle the panel is a strip as large as its cards; at an edge it is a
/// column of full height along that edge, as wide as a thumbnail with a text
/// column and what surrounds them.
pub proof fn law_the_frame_follows_the_position(position: Position, thumb_width: i32)
    requires
        thumb_width + 306 <= i32::MAX,
    ensures
        ({
            let f = frame_of(position, thumb_width);
            &&& f.strip <==> position is Center
            &&& f.overlay_scrolling <==> !(position is Center)
            &&& f.width is None <==> position is Center
            &&& f.width matches Some(w) ==> w == thumb_width + 306
            &&& f.valign is Center <==> position is Center
            &&& f.valign is Fill <==> !(position is Center)
            &&& position is Left ==> f.halign is Start
            &&& position is Center ==> f.halign is Center
            &&& position is Right ==> f.halign is End
            &&& f.spacing == if position is Center {
                10int
            } else {
                6
            }
        }),
{
}

/// A card is its thumbnail and twenty pixels; a strip is its cards, ten pixels
/// between them and sixteen around them.
pub proof fn law_a_strip_is_its_cards_and_gaps(cards: int, thumb_width: int)
    requires
        cards >= 0,
    ensures
        card_width_of(thumb_width) == thumb_width + 20,
        cards >= 1 ==> strip_width_of(cards, thumb_width) == cards * (thumb_width + 20) + (cards
            - 1) * 10 + 16,
        strip_width_of(0, thumb_width) == 16,
{
}

} // verus!
