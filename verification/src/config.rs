//! The configuration. Missing file or missing keys mean defaults; a malformed
//! file is reported, and defaults are used.
//!
//! ```toml
//! # Width of the thumbnails in pixels; height follows the output's aspect ratio.
//! thumbnail_width = 240
//! # Where the panel sits: "center" (default) lays the workspaces out side by
//! # side in the middle of the screen; "left" / "right" stack them in a
//! # full-height column along that edge.
//! position = "center"
//! # Close the panel as soon as a workspace is clicked (default). With `false`
//! # a click switches to the workspace but leaves the panel open, so several
//! # can be visited in a row; Enter always closes.
//! close_on_select = true
//! # How the toggle key behaves: "toggle" (default) is a switch; "hold" is
//! # alt-tab: while the panel is up every further `svitek toggle` steps the
//! # selection one workspace on (wrapping), and letting go of the modifier
//! # (Super/Alt/Ctrl/Meta/Hyper) commits it, exactly as Enter would.
//! mode = "toggle"
//! # Hold mode only: whether the press that opens the panel already selects
//! # the *next* workspace.
//! hold_selects_next = true
//!
//! [colors]
//! background = "#1e1e2ecc"   # panel background (RGBA hex allowed)
//! foreground = "#cdd6f4"     # window titles
//! dim        = "#a6adc8"     # app_id, workspace labels
//! focused    = "#89b4fa"     # border/marker of the focused workspace row
//! ```

use crate::paths::entry;
use vstd::prelude::*;

verus! {

#[derive(Debug, PartialEq, Eq)]
pub struct Config {
    pub thumbnail_width: u32,
    pub position: Position,
    pub close_on_select: bool,
    pub mode: Mode,
    /// Hold mode: does the opening press already step to the next workspace?
    /// Ignored in toggle mode.
    pub hold_selects_next: bool,
    pub colors: Colors,
}

#[derive(Debug, Clone, Copy, PartialEq, Eq, Structural)]
pub enum Position {
    Left,
    Center,
    Right,
}

/// What the key bound to `svitek toggle` does.
#[derive(Debug, Clone, Copy, PartialEq, Eq, Structural)]
pub enum Mode {
    /// A switch: the binding opens the panel, and pressing it again closes it
    /// and goes back where the user came from.
    Toggle,
    /// Alt-tab: the binding opens the panel and every further press *steps* the
    /// selection one workspace on (wrapping). Releasing the modifier commits,
    /// the way Enter does.
    Hold,
}

#[derive(Debug, PartialEq, Eq)]
pub struct Colors {
    pub background: String,
    pub foreground: String,
    pub dim: String,
    pub focused: String,
}

/// A [`Config`] with its texts as character sequences.
pub ghost struct ConfigView {
    pub thumbnail_width: u32,
    pub position: Position,
    pub close_on_select: bool,
    pub mode: Mode,
    pub hold_selects_next: bool,
    pub colors: ColorsView,
}

/// [`Colors`] with its texts as character sequences.
pub ghost struct ColorsView {
    pub background: Seq<char>,
    pub foreground: Seq<char>,
    pub dim: Seq<char>,
    pub focused: Seq<char>,
}

impl DeepView for Colors {
    type V = ColorsView;

    open spec fn deep_view(&self) -> ColorsView {
        ColorsView {
            background: self.background@,
            foreground: self.foreground@,
            dim: self.dim@,
            focused: self.focused@,
        }
    }
}

impl DeepView for Config {
    type V = ConfigView;

    open spec fn deep_view(&self) -> ConfigView {
        ConfigView {
            thumbnail_width: self.thumbnail_width,
            position: self.position,
            close_on_select: self.close_on_select,
            mode: self.mode,
            hold_selects_next: self.hold_selects_next,
            colors: self.colors.deep_view(),
        }
    }
}

/// The built-in colours.
pub open spec fn default_colors() -> ColorsView {
    ColorsView {
        background: "#1e1e2ecc"@,
        foreground: "#cdd6f4"@,
        dim: "#a6adc8"@,
        focused: "#89b4fa"@,
    }
}

/// The built-in configuration.
pub open spec fn default_config() -> ConfigView {
    ConfigView {
        thumbnail_width: 240,
        position: Position::Center,
        close_on_select: true,
        mode: Mode::Toggle,
        hold_selects_next: true,
        colors: default_colors(),
    }
}

impl Default for Config {
    fn default() -> (r: Self)
        ensures
            r.deep_view() == default_config(),
    {
        Config {
            thumbnail_width: 240,
            position: Position::Center,
            close_on_select: true,
            mode: Mode::Toggle,
            hold_selects_next: true,
            colors: Colors::default(),
        }
    }
}

impl Default for Colors {
    fn default() -> (r: Self)
        ensures
            r.deep_view() == default_colors(),
    {
        Colors {
            background: "#1e1e2ecc".to_owned(),
            foreground: "#cdd6f4".to_owned(),
            dim: "#a6adc8".to_owned(),
            focused: "#89b4fa".to_owned(),
        }
    }
}

// ---------------------------------------------------------------- the file --

/// The keys a configuration file sets; every one of them may be missing.
#[derive(Debug, PartialEq, Eq)]
pub struct Overrides {
    pub thumbnail_width: Option<u32>,
    pub position: Option<Position>,
    pub close_on_select: Option<bool>,
    pub mode: Option<Mode>,
    pub hold_selects_next: Option<bool>,
    pub colors: Option<ColorOverrides>,
}

/// The keys of the `[colors]` table.
#[derive(Debug, PartialEq, Eq)]
pub struct ColorOverrides {
    pub background: Option<String>,
    pub foreground: Option<String>,
    pub dim: Option<String>,
    pub focused: Option<String>,
}

/// What was found where the configuration file should be. The errors are the
/// reader's and the parser's own words.
#[derive(Debug, PartialEq, Eq)]
pub enum ConfigFile {
    Missing,
    Unreadable(String),
    Malformed(String),
    Parsed(Overrides),
}

/// The text that was set, or the one to fall back on.
pub open spec fn text_or(set: Option<String>, fallback: Seq<char>) -> Seq<char> {
    match set {
        Some(s) => s@,
        None => fallback,
    }
}

impl Colors {
    /// The built-in colours, but for those that are set.
    pub open spec fn overridden(o: ColorOverrides) -> ColorsView {
        let d = default_colors();
        ColorsView {
            background: text_or(o.background, d.background),
            foreground: text_or(o.foreground, d.foreground),
            dim: text_or(o.dim, d.dim),
            focused: text_or(o.focused, d.focused),
        }
    }

    /// The built-in colours, but for those that are set.
    pub fn with(o: ColorOverrides) -> (r: Colors)
        ensures
            r.deep_view() == Colors::overridden(o),
    {
        let d = Colors::default();
        Colors {
            background: o.background.unwrap_or(d.background),
            foreground: o.foreground.unwrap_or(d.foreground),
            dim: o.dim.unwrap_or(d.dim),
            focused: o.focused.unwrap_or(d.focused),
        }
    }
}

/// What a key was set to, or the default.
pub open spec fn value_or<T>(set: Option<T>, fallback: T) -> T {
    match set {
        Some(v) => v,
        None => fallback,
    }
}

impl Config {
    /// The built-in configuration, but for the keys that are set.
    pub open spec fn overridden(o: Overrides) -> ConfigView {
        let d = default_config();
        ConfigView {
            thumbnail_width: value_or(o.thumbnail_width, d.thumbnail_width),
            position: value_or(o.position, d.position),
            close_on_select: value_or(o.close_on_select, d.close_on_select),
            mode: value_or(o.mode, d.mode),
            hold_selects_next: value_or(o.hold_selects_next, d.hold_selects_next),
            colors: match o.colors {
                Some(c) => Colors::overridden(c),
                None => d.colors,
            },
        }
    }

    /// The built-in configuration, but for the keys that are set.
    pub fn with(o: Overrides) -> (r: Config)
        ensures
            r.deep_view() == Config::overridden(o),
    {
        let d = Config::default();
        Config {
            thumbnail_width: o.thumbnail_width.unwrap_or(d.thumbnail_width),
            position: o.position.unwrap_or(d.position),
            close_on_select: o.close_on_select.unwrap_or(d.close_on_select),
            mode: o.mode.unwrap_or(d.mode),
            hold_selects_next: o.hold_selects_next.unwrap_or(d.hold_selects_next),
            colors: match o.colors {
                Some(c) => Colors::with(c),
                None => d.colors,
            },
        }
    }
}

/// `svitek/config.toml` below the user's configuration directory, if there is
/// such a directory.
pub fn config_path(config_dir: &Option<Vec<u8>>) -> (r: Option<Vec<u8>>)
    ensures
        match *config_dir {
            Some(d) => r is Some && r->0@ == crate::paths::entry_of(
                crate::paths::entry_of(d@, "svitek"@),
                "config.toml"@,
            ),
            None => r is None,
        },
{
    match config_dir {
        Some(d) => Some(entry(&entry(d, "svitek"), "config.toml")),
        None => None,
    }
}

/// `path: error`.
pub open spec fn complaint(path: Seq<char>, error: Seq<char>) -> Seq<char> {
    path + ": "@ + error
}

/// The configuration to run with, and a complaint when there was a file that
/// could not be used. `path` is where the file was looked for, `None` when
/// there is no place to look.
pub fn load(path: Option<&str>, file: ConfigFile) -> (r: (Config, Option<String>))
    ensures
        path is None ==> r.0.deep_view() == default_config() && r.1 is None,
        path matches Some(p) ==> match file {
            ConfigFile::Missing => r.0.deep_view() == default_config() && r.1 is None,
            ConfigFile::Parsed(o) => r.0.deep_view() == Config::overridden(o) && r.1 is None,
            ConfigFile::Unreadable(e) => r.0.deep_view() == default_config() && r.1.deep_view()
                == Some(complaint(p@, e@)),
            ConfigFile::Malformed(e) => r.0.deep_view() == default_config() && r.1.deep_view()
                == Some(complaint(p@, e@)),
        },
{
    let path = match path {
        Some(p) => p,
        None => {
            return (Config::default(), None);
        },
    };
    match file {
        ConfigFile::Missing => (Config::default(), None),
        ConfigFile::Parsed(o) => (Config::with(o), None),
        ConfigFile::Unreadable(e) | ConfigFile::Malformed(e) => {
            let mut text = path.to_owned();
            text.append(": ");
            text.append(&e);
            (Config::default(), Some(text))
        },
    }
}

// -------------------------------------------------------------------- laws --

/// A key that is set counts, whatever else is; one that is not has its default.
pub proof fn law_a_key_that_is_set_counts(o: Overrides)
    ensures
        ({
            let c = Config::overridden(o);
            &&& o.thumbnail_width matches Some(w) ==> c.thumbnail_width == w
            &&& o.thumbnail_width is None ==> c.thumbnail_width == 240
            &&& o.position matches Some(p) ==> c.position == p
            &&& o.position is None ==> c.position is Center
            &&& o.close_on_select matches Some(b) ==> c.close_on_select == b
            &&& o.close_on_select is None ==> c.close_on_select
            &&& o.mode matches Some(m) ==> c.mode == m
            &&& o.mode is None ==> c.mode is Toggle
            &&& o.hold_selects_next matches Some(b) ==> c.hold_selects_next == b
            &&& o.hold_selects_next is None ==> c.hold_selects_next
            &&& o.colors is None ==> c.colors.background == "#1e1e2ecc"@ && c.colors.foreground
                == "#cdd6f4"@ && c.colors.dim == "#a6adc8"@ && c.colors.focused == "#89b4fa"@
        }),
{
}

/// The same of every colour.
pub proof fn law_a_color_that_is_set_counts(o: Overrides, set: ColorOverrides)
    requires
        o.colors == Some(set),
    ensures
        ({
            let c = Config::overridden(o).colors;
            &&& set.background matches Some(t) ==> c.background == t@
            &&& set.background is None ==> c.background == "#1e1e2ecc"@
            &&& set.foreground matches Some(t) ==> c.foreground == t@
            &&& set.foreground is None ==> c.foreground == "#cdd6f4"@
            &&& set.dim matches Some(t) ==> c.dim == t@
            &&& set.dim is None ==> c.dim == "#a6adc8"@
            &&& set.focused matches Some(t) ==> c.focused == t@
            &&& set.focused is None ==> c.focused == "#89b4fa"@
        }),
{
}

/// A file that sets nothing is as good as none.
pub proof fn law_an_empty_file_is_the_default(o: Overrides)
    requires
        o.thumbnail_width is None,
        o.position is None,
        o.close_on_select is None,
        o.mode is None,
        o.hold_selects_next is None,
        o.colors is None,
    ensures
        Config::overridden(o) == default_config(),
{
}

} // verus!
