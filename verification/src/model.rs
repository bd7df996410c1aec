//! Shared plain-data types: what the threads that watch sway, capture the
//! screen and serve the control socket tell the main loop.

use crate::text::{same_text, trim};
use vstd::prelude::*;

verus! {

// ----------------------------------------------------------------- windows --

/// One toplevel window as sway reports it.
#[derive(Debug, PartialEq, Eq)]
pub struct WindowInfo {
    pub id: i64,
    pub title: String,
    /// Wayland `app_id`, or the X11 class for xwayland windows, or None.
    pub app_id: Option<String>,
    pub focused: bool,
}

/// A [`WindowInfo`] with its texts as character sequences.
pub ghost struct WindowView {
    pub id: i64,
    pub title: Seq<char>,
    pub app_id: Option<Seq<char>>,
    pub focused: bool,
}

impl DeepView for WindowInfo {
    type V = WindowView;

    open spec fn deep_view(&self) -> WindowView {
        WindowView {
            id: self.id,
            title: self.title@,
            app_id: self.app_id.deep_view(),
            focused: self.focused,
        }
    }
}

impl Clone for WindowInfo {
    fn clone(&self) -> (r: Self)
        ensures
            r.deep_view() == self.deep_view(),
    {
        WindowInfo {
            id: self.id,
            title: self.title.clone(),
            app_id: self.app_id.clone(),
            focused: self.focused,
        }
    }
}

// -------------------------------------------------------------- workspaces --

/// One workspace as sway reports it, with its windows in tree order.
#[derive(Debug, PartialEq, Eq)]
pub struct WorkspaceInfo {
    pub id: i64,
    /// `num` from get_workspaces; None (negative in sway) for purely named workspaces.
    pub num: Option<i32>,
    /// The workspace name: the stable key used everywhere (thumbnail cache, switching).
    pub name: String,
    /// Output (connector) name, e.g. "DP-2".
    pub output: String,
    /// True for exactly one workspace overall: the one holding keyboard focus.
    pub focused: bool,
    /// True for the workspace currently shown on its output (one per output).
    pub visible: bool,
    pub windows: Vec<WindowInfo>,
}

/// A [`WorkspaceInfo`] with its texts as character sequences.
pub ghost struct WorkspaceView {
    pub id: i64,
    pub num: Option<i32>,
    pub name: Seq<char>,
    pub output: Seq<char>,
    pub focused: bool,
    pub visible: bool,
    pub windows: Seq<WindowView>,
}

impl DeepView for WorkspaceInfo {
    type V = WorkspaceView;

    open spec fn deep_view(&self) -> WorkspaceView {
        WorkspaceView {
            id: self.id,
            num: self.num,
            name: self.name@,
            output: self.output@,
            focused: self.focused,
            visible: self.visible,
            windows: self.windows.deep_view(),
        }
    }
}

/// A copy of a list, element by element.
pub fn copy_windows(v: &Vec<WindowInfo>) -> (r: Vec<WindowInfo>)
    ensures
        r.deep_view() == v.deep_view(),
{
    let mut out: Vec<WindowInfo> = Vec::new();
    for i in 0..v.len()
        invariant
            out@.len() == i,
            forall|k: int| 0 <= k < i ==> (#[trigger] out@[k]).deep_view() == v@[k].deep_view(),
    {
        out.push(v[i].clone());
    }
    assert(out.deep_view() =~= v.deep_view());
    out
}

impl Clone for WorkspaceInfo {
    fn clone(&self) -> (r: Self)
        ensures
            r.deep_view() == self.deep_view(),
    {
        WorkspaceInfo {
            id: self.id,
            num: self.num,
            name: self.name.clone(),
            output: self.output.clone(),
            focused: self.focused,
            visible: self.visible,
            windows: copy_windows(&self.windows),
        }
    }
}

/// A copy of a list, element by element.
pub fn copy_workspaces(v: &Vec<WorkspaceInfo>) -> (r: Vec<WorkspaceInfo>)
    ensures
        r.deep_view() == v.deep_view(),
{
    let mut out: Vec<WorkspaceInfo> = Vec::new();
    for i in 0..v.len()
        invariant
            out@.len() == i,
            forall|k: int| 0 <= k < i ==> (#[trigger] out@[k]).deep_view() == v@[k].deep_view(),
    {
        out.push(v[i].clone());
    }
    assert(out.deep_view() =~= v.deep_view());
    out
}

// --------------------------------------------------------------- snapshots --

/// Everything the panel renders, as of one moment. Covers all outputs.
#[derive(Debug, PartialEq, Eq)]
pub struct Snapshot {
    /// Name of the output that holds the focused workspace.
    pub focused_output: String,
    /// All workspaces on all outputs, grouped by output, numbered ones
    /// ascending, then named ones in sway's own (creation) order.
    pub workspaces: Vec<WorkspaceInfo>,
}

/// A [`Snapshot`] with its texts as character sequences.
pub ghost struct SnapshotView {
    pub focused_output: Seq<char>,
    pub workspaces: Seq<WorkspaceView>,
}

impl DeepView for Snapshot {
    type V = SnapshotView;

    open spec fn deep_view(&self) -> SnapshotView {
        SnapshotView {
            focused_output: self.focused_output@,
            workspaces: self.workspaces.deep_view(),
        }
    }
}

impl Clone for Snapshot {
    fn clone(&self) -> (r: Self)
        ensures
            r.deep_view() == self.deep_view(),
    {
        Snapshot {
            focused_output: self.focused_output.clone(),
            workspaces: copy_workspaces(&self.workspaces),
        }
    }
}

impl Default for Snapshot {
    /// No output and no workspace.
    fn default() -> (r: Self)
        ensures
            r.deep_view() == (SnapshotView { focused_output: seq![], workspaces: seq![] }),
    {
        let r = Snapshot { focused_output: String::new(), workspaces: Vec::new() };
        assert(r.workspaces.deep_view() =~= seq![]);
        r
    }
}

/// Being on `output`.
pub open spec fn is_on(output: Seq<char>) -> spec_fn(WorkspaceView) -> bool {
    |w: WorkspaceView| w.output == output
}

/// Being what `output` currently shows.
pub open spec fn is_visible_on(output: Seq<char>) -> spec_fn(WorkspaceView) -> bool {
    |w: WorkspaceView| w.output == output && w.visible
}

impl SnapshotView {
    /// The workspaces on `output`, in display order.
    pub open spec fn on_output(self, output: Seq<char>) -> Seq<WorkspaceView> {
        self.workspaces.filter(is_on(output))
    }

    /// The workspace currently visible on `output`, if any.
    pub open spec fn visible_on(self, output: Seq<char>) -> Option<WorkspaceView> {
        crate::lists::first(self.workspaces, is_visible_on(output))
    }
}

proof fn lemma_filter_step<A>(s: Seq<A>, p: spec_fn(A) -> bool, i: int)
    requires
        0 <= i < s.len(),
    ensures
        s.take(i + 1).filter(p) == if p(s[i]) {
            s.take(i).filter(p).push(s[i])
        } else {
            s.take(i).filter(p)
        },
{
    reveal(Seq::filter);
    assert(s.take(i + 1).drop_last() =~= s.take(i));
    assert(s.take(i + 1).last() == s[i]);
}

impl Snapshot {
    /// Workspaces on `output`, in display order.
    pub fn on_output(&self, output: &str) -> (r: Vec<&WorkspaceInfo>)
        ensures
            r.deep_view() == self.deep_view().on_output(output@),
    {
        let mut out: Vec<&WorkspaceInfo> = Vec::new();
        let ghost all = self.workspaces.deep_view();
        assert(out.deep_view() =~= all.take(0).filter(is_on(output@))) by {
            reveal(Seq::filter);
        }
        for i in 0..self.workspaces.len()
            invariant
                all == self.workspaces.deep_view(),
                out.deep_view() == all.take(i as int).filter(is_on(output@)),
        {
            let w = &self.workspaces[i];
            let ghost before = out.deep_view();
            proof {
                lemma_filter_step(all, is_on(output@), i as int);
                assert(all[i as int] == w.deep_view());
            }
            if same_text(&w.output, output) {
                out.push(w);
                assert(out.deep_view() =~= before.push(w.deep_view()));
            }
        }
        assert(all.take(all.len() as int) =~= all);
        out
    }

    /// The workspace currently visible on `output`, if any.
    pub fn visible_on(&self, output: &str) -> (r: Option<&WorkspaceInfo>)
        ensures
            r.deep_view() == self.deep_view().visible_on(output@),
    {
        let ghost all = self.workspaces.deep_view();
        let ghost p = is_visible_on(output@);
        for i in 0..self.workspaces.len()
            invariant
                all == self.workspaces.deep_view(),
                p == is_visible_on(output@),
                forall|j: int| 0 <= j < i ==> !p(#[trigger] all[j]),
        {
            let w = &self.workspaces[i];
            assert(all[i as int] == w.deep_view());
            if w.visible && same_text(&w.output, output) {
                proof {
                    crate::lists::lemma_position_is(all, p, i as int);
                }
                return Some(w);
            }
        }
        proof {
            crate::lists::lemma_position_none(all, p);
        }
        None
    }
}

// -------------------------------------------------------- in-place changes --

/// The same window, though its title and focus may differ.
pub open spec fn same_window(a: WindowView, b: WindowView) -> bool {
    a.id == b.id && a.app_id == b.app_id
}

/// The same workspace holding the same windows, though flags and titles may
/// differ.
pub open spec fn same_row(a: WorkspaceView, b: WorkspaceView) -> bool {
    &&& a.id == b.id
    &&& a.num == b.num
    &&& a.name == b.name
    &&& a.output == b.output
    &&& a.windows.len() == b.windows.len()
    &&& forall|k: int|
        0 <= k < a.windows.len() ==> same_window(#[trigger] a.windows[k], b.windows[k])
}

/// The same rows, in the same order.
pub open spec fn same_rows(a: Seq<WorkspaceView>, b: Seq<WorkspaceView>) -> bool {
    a.len() == b.len() && forall|i: int| 0 <= i < a.len() ==> same_row(#[trigger] a[i], b[i])
}

/// Whether two optional texts are the same.
pub fn same_optional_text(a: &Option<String>, b: &Option<String>) -> (r: bool)
    ensures
        r == (a.deep_view() == b.deep_view()),
{
    match (a, b) {
        (Some(x), Some(y)) => same_text(x, y),
        (None, None) => true,
        _ => false,
    }
}

fn same_windows(a: &Vec<WindowInfo>, b: &Vec<WindowInfo>) -> (r: bool)
    ensures
        r == (a@.len() == b@.len() && forall|k: int|
            0 <= k < a@.len() ==> same_window(
                #[trigger] a.deep_view()[k],
                b.deep_view()[k],
            )),
{
    if a.len() != b.len() {
        return false;
    }
    for i in 0..a.len()
        invariant
            a@.len() == b@.len(),
            forall|k: int|
                0 <= k < i ==> same_window(#[trigger] a.deep_view()[k], b.deep_view()[k]),
    {
        if a[i].id != b[i].id || !same_optional_text(&a[i].app_id, &b[i].app_id) {
            assert(!same_window(a.deep_view()[i as int], b.deep_view()[i as int]));
            return false;
        }
    }
    true
}

/// True when `old` and `new` describe the *same rows*: the same workspaces, in
/// the same order, holding the same windows (same ids, same order, same
/// `app_id`). What is left, the focus and visibility flags and the window
/// titles, the panel can apply to the rows it already has.
pub fn flags_only_change(old: &[WorkspaceInfo], new: &[WorkspaceInfo]) -> (r: bool)
    ensures
        r == same_rows(old.deep_view(), new.deep_view()),
{
    if old.len() != new.len() {
        return false;
    }
    for i in 0..old.len()
        invariant
            old@.len() == new@.len(),
            forall|k: int|
                0 <= k < i ==> same_row(#[trigger] old.deep_view()[k], new.deep_view()[k]),
    {
        let a = &old[i];
        let b = &new[i];
        assert(old.deep_view()[i as int] == a.deep_view());
        assert(new.deep_view()[i as int] == b.deep_view());
        if !(a.id == b.id && a.num == b.num && same_text(&a.name, &b.name) && same_text(
            &a.output,
            &b.output,
        ) && same_windows(&a.windows, &b.windows)) {
            assert(!same_row(old.deep_view()[i as int], new.deep_view()[i as int]));
            return false;
        }
    }
    true
}

// ---------------------------------------------------------------- equality --

fn equal_windows(a: &Vec<WindowInfo>, b: &Vec<WindowInfo>) -> (r: bool)
    ensures
        r == (a.deep_view() == b.deep_view()),
{
    if a.len() != b.len() {
        assert(a.deep_view().len() != b.deep_view().len());
        return false;
    }
    for i in 0..a.len()
        invariant
            a@.len() == b@.len(),
            forall|k: int| 0 <= k < i ==> #[trigger] a.deep_view()[k] == b.deep_view()[k],
    {
        let x = &a[i];
        let y = &b[i];
        assert(a.deep_view()[i as int] == x.deep_view());
        assert(b.deep_view()[i as int] == y.deep_view());
        if !(x.id == y.id && x.focused == y.focused && same_text(&x.title, &y.title)
            && same_optional_text(&x.app_id, &y.app_id)) {
            return false;
        }
    }
    assert(a.deep_view() =~= b.deep_view());
    true
}

/// Whether two lists of workspaces are the same in everything.
pub fn equal_workspaces(a: &Vec<WorkspaceInfo>, b: &Vec<WorkspaceInfo>) -> (r: bool)
    ensures
        r == (a.deep_view() == b.deep_view()),
{
    if a.len() != b.len() {
        assert(a.deep_view().len() != b.deep_view().len());
        return false;
    }
    for i in 0..a.len()
        invariant
            a@.len() == b@.len(),
            forall|k: int| 0 <= k < i ==> #[trigger] a.deep_view()[k] == b.deep_view()[k],
    {
        let x = &a[i];
        let y = &b[i];
        assert(a.deep_view()[i as int] == x.deep_view());
        assert(b.deep_view()[i as int] == y.deep_view());
        if !(x.id == y.id && x.num == y.num && x.focused == y.focused && x.visible == y.visible
            && same_text(&x.name, &y.name) && same_text(&x.output, &y.output) && equal_windows(
            &x.windows,
            &y.windows,
        )) {
            return false;
        }
    }
    assert(a.deep_view() =~= b.deep_view());
    true
}

// -------------------------------------------------------------- thumbnails --

/// A downscaled screenshot of one output. Straight (non-premultiplied) RGBA8,
/// row stride = width * 4, top row first.
#[derive(Debug, PartialEq, Eq)]
pub struct Thumbnail {
    pub width: u32,
    pub height: u32,
    pub rgba: Vec<u8>,
    /// When the frame was received from the compositor, in nanoseconds on the
    /// capture thread's clock. Not shown; kept so the panel can display a
    /// thumbnail's age later.
    pub taken_at: u64,
}

/// A [`Thumbnail`] with its pixels as a sequence.
pub ghost struct ThumbnailView {
    pub width: u32,
    pub height: u32,
    pub rgba: Seq<u8>,
    pub taken_at: u64,
}

impl DeepView for Thumbnail {
    type V = ThumbnailView;

    open spec fn deep_view(&self) -> ThumbnailView {
        ThumbnailView {
            width: self.width,
            height: self.height,
            rgba: self.rgba@,
            taken_at: self.taken_at,
        }
    }
}

impl Clone for Thumbnail {
    fn clone(&self) -> (r: Self)
        ensures
            r.deep_view() == self.deep_view(),
    {
        let rgba = self.rgba.clone();
        assert(rgba@ =~= self.rgba@);
        Thumbnail { width: self.width, height: self.height, rgba, taken_at: self.taken_at }
    }
}

/// Why a capture was asked for.
#[derive(Debug, Clone, Copy, PartialEq, Eq, Structural)]
pub enum CaptureReason {
    /// Periodic / damage-driven background refresh of a visible workspace.
    Background,
    /// The user pressed the toggle: capture the current workspace fresh before showing.
    Toggle,
    /// A workspace was just entered; capture it once it has rendered.
    Entered,
}

// ---------------------------------------------------------------- commands --

/// A command received on the control socket (`svitek toggle` etc.).
#[derive(Debug, Clone, Copy, PartialEq, Eq, Structural)]
pub enum Command {
    Toggle,
    Show,
    Hide,
    /// Step the selection one workspace on (wrapping), or show the panel when
    /// it is down.
    Next,
    /// The same, one workspace back.
    Prev,
    Quit,
}

/// The word that stands for a command.
pub open spec fn command_name(c: Command) -> Seq<char> {
    match c {
        Command::Toggle => "toggle"@,
        Command::Show => "show"@,
        Command::Hide => "hide"@,
        Command::Next => "next"@,
        Command::Prev => "prev"@,
        Command::Quit => "quit"@,
    }
}

/// The command a word stands for, if it is the word of one.
pub open spec fn command_named(word: Seq<char>) -> Option<Command> {
    if word == "toggle"@ {
        Some(Command::Toggle)
    } else if word == "show"@ {
        Some(Command::Show)
    } else if word == "hide"@ {
        Some(Command::Hide)
    } else if word == "next"@ {
        Some(Command::Next)
    } else if word == "prev"@ {
        Some(Command::Prev)
    } else if word == "quit"@ {
        Some(Command::Quit)
    } else {
        None
    }
}

impl Command {
    /// The command a line spells, blanks around it aside. Case matters, and
    /// nothing but the six words is a command.
    pub fn parse(s: &str) -> (r: Option<Command>)
        ensures
            r == command_named(crate::text::trimmed(s@)),
    {
        let word = trim(s);
        if same_text(&word, "toggle") {
            Some(Command::Toggle)
        } else if same_text(&word, "show") {
            Some(Command::Show)
        } else if same_text(&word, "hide") {
            Some(Command::Hide)
        } else if same_text(&word, "next") {
            Some(Command::Next)
        } else if same_text(&word, "prev") {
            Some(Command::Prev)
        } else if same_text(&word, "quit") {
            Some(Command::Quit)
        } else {
            None
        }
    }

    /// The word that stands for this command.
    pub fn as_str(self) -> (r: &'static str)
        ensures
            r@ == command_name(self),
    {
        match self {
            Command::Toggle => "toggle",
            Command::Show => "show",
            Command::Hide => "hide",
            Command::Next => "next",
            Command::Prev => "prev",
            Command::Quit => "quit",
        }
    }
}

// ---------------------------------------------------------------- messages --

/// Every message the background threads send to the main loop.
#[derive(Debug, PartialEq, Eq)]
#[allow(inconsistent_fields)]
pub enum Msg {
    /// Fresh full state from sway (sent at start and after every relevant event).
    State(Snapshot),
    /// A workspace focus change: `to` is now visible on `output`; `from` is the
    /// workspace that had focus before. Sent before the `State` that follows it.
    WorkspaceSwitched { output: String, from: Option<String>, to: String },
    /// A workspace was renamed. Everything keyed by workspace name has to move
    /// `from` -> `to`. Sent before the `State` that follows it.
    WorkspaceRenamed { from: String, to: String },
    /// A workspace ceased to exist. Anything cached under `name` describes a
    /// workspace that is gone. Sent before the `State` that follows it.
    WorkspaceRemoved { name: String },
    /// A finished screencopy of `output`. The receiver attributes it to whichever
    /// workspace is visible on that output at the moment this is handled.
    Frame { output: String, thumb: Thumbnail, reason: CaptureReason },
    /// A capture request failed or the output vanished; nothing to attribute.
    CaptureFailed { output: String, reason: CaptureReason, error: String },
    /// The set of outputs the capturer knows about changed (sorted names).
    CaptureOutputs(Vec<String>),
    /// A control-socket command.
    Control(Command),
    /// The sway IPC connection died; the app should exit (sway is gone).
    IpcLost(String),
}

/// A [`Msg`] with its texts as character sequences.
#[allow(inconsistent_fields)]
pub ghost enum MsgView {
    State(SnapshotView),
    WorkspaceSwitched { output: Seq<char>, from: Option<Seq<char>>, to: Seq<char> },
    WorkspaceRenamed { from: Seq<char>, to: Seq<char> },
    WorkspaceRemoved { name: Seq<char> },
    Frame { output: Seq<char>, thumb: ThumbnailView, reason: CaptureReason },
    CaptureFailed { output: Seq<char>, reason: CaptureReason, error: Seq<char> },
    CaptureOutputs(Seq<Seq<char>>),
    Control(Command),
    IpcLost(Seq<char>),
}

impl DeepView for Msg {
    type V = MsgView;

    open spec fn deep_view(&self) -> MsgView {
        match self {
            Msg::State(s) => MsgView::State(s.deep_view()),
            Msg::WorkspaceSwitched { output, from, to } => MsgView::WorkspaceSwitched {
                output: output@,
                from: from.deep_view(),
                to: to@,
            },
            Msg::WorkspaceRenamed { from, to } => MsgView::WorkspaceRenamed {
                from: from@,
                to: to@,
            },
            Msg::WorkspaceRemoved { name } => MsgView::WorkspaceRemoved { name: name@ },
            Msg::Frame { output, thumb, reason } => MsgView::Frame {
                output: output@,
                thumb: thumb.deep_view(),
                reason: *reason,
            },
            Msg::CaptureFailed { output, reason, error } => MsgView::CaptureFailed {
                output: output@,
                reason: *reason,
                error: error@,
            },
            Msg::CaptureOutputs(names) => MsgView::CaptureOutputs(names.deep_view()),
            Msg::Control(c) => MsgView::Control(*c),
            Msg::IpcLost(e) => MsgView::IpcLost(e@),
        }
    }
}

// -------------------------------------------------------------------- laws --

/// The letters of the command words, spelled out.
pub proof fn lemma_command_words()
    ensures
        "toggle"@ == seq!['t', 'o', 'g', 'g', 'l', 'e'],
        "show"@ == seq!['s', 'h', 'o', 'w'],
        "hide"@ == seq!['h', 'i', 'd', 'e'],
        "next"@ == seq!['n', 'e', 'x', 't'],
        "prev"@ == seq!['p', 'r', 'e', 'v'],
        "quit"@ == seq!['q', 'u', 'i', 't'],
{
    reveal_strlit("toggle");
    reveal_strlit("show");
    reveal_strlit("hide");
    reveal_strlit("next");
    reveal_strlit("prev");
    reveal_strlit("quit");
    assert("toggle"@ =~= seq!['t', 'o', 'g', 'g', 'l', 'e']);
    assert("show"@ =~= seq!['s', 'h', 'o', 'w']);
    assert("hide"@ =~= seq!['h', 'i', 'd', 'e']);
    assert("next"@ =~= seq!['n', 'e', 'x', 't']);
    assert("prev"@ =~= seq!['p', 'r', 'e', 'v']);
    assert("quit"@ =~= seq!['q', 'u', 'i', 't']);
}

/// Every command parses from its own name, and from its name followed by the
/// newline the control socket leaves on it.
pub proof fn law_commands_round_trip(c: Command)
    ensures
        command_named(crate::text::trimmed(command_name(c))) == Some(c),
        command_named(crate::text::trimmed(command_name(c).push('\n'))) == Some(c),
{
    lemma_command_words();
    let w = command_name(c);
    crate::text::lemma_trim_keeps_a_word(w);
    crate::text::lemma_trim_drops_a_trailing_blank(w, '\n');
    assert(w.len() == 4 || w.len() == 6);
    assert(w[0] == 't' || w[0] == 's' || w[0] == 'h' || w[0] == 'n' || w[0] == 'p' || w[0] == 'q');
    assert("toggle"@.len() == 6);
    assert("show"@[0] == 's' && "hide"@[0] == 'h' && "next"@[0] == 'n' && "prev"@[0] == 'p'
        && "quit"@[0] == 'q');
}

/// Nothing but a command's name, blanks around it aside, parses as that
/// command.
pub proof fn law_only_command_names_parse(line: Seq<char>)
    ensures
        match command_named(crate::text::trimmed(line)) {
            Some(c) => crate::text::trimmed(line) == command_name(c),
            None => forall|c: Command| crate::text::trimmed(line) != #[trigger] command_name(c),
        },
{
}

/// Rows that are the same stay the same in every later comparison: the
/// relation that lets the panel repaint in place is an equivalence.
pub proof fn law_same_rows_is_an_equivalence(
    a: Seq<WorkspaceView>,
    b: Seq<WorkspaceView>,
    c: Seq<WorkspaceView>,
)
    ensures
        same_rows(a, a),
        same_rows(a, b) ==> same_rows(b, a),
        same_rows(a, b) && same_rows(b, c) ==> same_rows(a, c),
{
    if same_rows(a, b) {
        assert forall|i: int| 0 <= i < b.len() implies same_row(#[trigger] b[i], a[i]) by {
            assert(same_row(a[i], b[i]));
            assert forall|k: int| 0 <= k < b[i].windows.len() implies same_window(
                #[trigger] b[i].windows[k],
                a[i].windows[k],
            ) by {
                assert(same_window(a[i].windows[k], b[i].windows[k]));
            }
        }
        if same_rows(b, c) {
            assert forall|i: int| 0 <= i < a.len() implies same_row(#[trigger] a[i], c[i]) by {
                assert(same_row(a[i], b[i]));
                assert(same_row(b[i], c[i]));
                assert forall|k: int| 0 <= k < a[i].windows.len() implies same_window(
                    #[trigger] a[i].windows[k],
                    c[i].windows[k],
                ) by {
                    assert(same_window(a[i].windows[k], b[i].windows[k]));
                    assert(same_window(b[i].windows[k], c[i].windows[k]));
                }
            }
        }
    }
}

/// A workspace with other flags, and with other titles on its windows.
pub open spec fn reflagged(a: WorkspaceView, b: WorkspaceView) -> bool {
    &&& b.windows.len() == a.windows.len()
    &&& b == (WorkspaceView { focused: b.focused, visible: b.visible, windows: b.windows, ..a })
    &&& forall|k: int|
        0 <= k < a.windows.len() ==> #[trigger] b.windows[k] == (WindowView {
            title: b.windows[k].title,
            focused: b.windows[k].focused,
            ..a.windows[k]
        })
}

/// Flags and titles are exactly what may differ between lists of the same
/// rows: whatever else changes is structural.
pub proof fn law_flags_and_titles_are_all_that_may_differ(
    a: Seq<WorkspaceView>,
    b: Seq<WorkspaceView>,
)
    ensures
        same_rows(a, b) <==> a.len() == b.len() && forall|i: int|
            0 <= i < a.len() ==> reflagged(#[trigger] a[i], b[i]),
{
    if same_rows(a, b) {
        assert forall|i: int| 0 <= i < a.len() implies reflagged(#[trigger] a[i], b[i]) by {
            assert(same_row(a[i], b[i]));
            assert forall|k: int| 0 <= k < a[i].windows.len() implies #[trigger] b[i].windows[k]
                == (WindowView {
                title: b[i].windows[k].title,
                focused: b[i].windows[k].focused,
                ..a[i].windows[k]
            }) by {
                assert(same_window(a[i].windows[k], b[i].windows[k]));
            }
        }
    }
    if a.len() == b.len() && forall|i: int|
        0 <= i < a.len() ==> reflagged(#[trigger] a[i], b[i]) {
        assert forall|i: int| 0 <= i < a.len() implies same_row(#[trigger] a[i], b[i]) by {
            assert(reflagged(a[i], b[i]));
            assert forall|k: int| 0 <= k < a[i].windows.len() implies same_window(
                #[trigger] a[i].windows[k],
                b[i].windows[k],
            ) by {
                assert(b[i].windows[k] == b[i].windows[k]);
            }
        }
    }
}

} // verus!
