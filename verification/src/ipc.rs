//! The sway event listener: what it asks of sway, and what it tells the main
//! loop.
//!
//! A snapshot is sent at the start and after every event. What a workspace
//! event says of itself is always sent before the snapshot that follows it, so
//! that whatever is keyed by workspace name is put right before new names show
//! up in a snapshot.

use crate::model::{Msg, MsgView, Snapshot, SnapshotView, WorkspaceView};
use crate::sway::SwayWorkspace;
use crate::text::same_text;
use std::collections::HashMap;
use vstd::prelude::*;

verus! {

broadcast use vstd::std_specs::hash::group_hash_axioms;

// ------------------------------------------------------------------- names --

/// Workspace node id to name; where an id occurs twice the later one counts.
pub open spec fn names_of(ws: Seq<WorkspaceView>) -> Map<i64, Seq<char>>
    decreases ws.len(),
{
    if ws.len() == 0 {
        Map::empty()
    } else {
        names_of(ws.drop_last()).insert(ws.last().id, ws.last().name)
    }
}

/// A name map with its names as character sequences.
pub open spec fn name_map(m: Map<i64, String>) -> Map<i64, Seq<char>> {
    m.map_values(|s: String| s@)
}

/// The workspace node id -> name map a rename is resolved against.
pub fn workspace_names(s: &Snapshot) -> (r: HashMap<i64, String>)
    ensures
        name_map(r@) == names_of(s.deep_view().workspaces),
{
    let mut map: HashMap<i64, String> = HashMap::new();
    let ghost all = s.deep_view().workspaces;
    assert(name_map(map@) =~= Map::empty());
    assert(all.take(0) =~= seq![]);
    for i in 0..s.workspaces.len()
        invariant
            all == s.deep_view().workspaces,
            name_map(map@) == names_of(all.take(i as int)),
    {
        let ghost before = map@;
        let w = &s.workspaces[i];
        map.insert(w.id, w.name.clone());
        assert(all.take(i + 1).drop_last() =~= all.take(i as int));
        assert(all.take(i + 1).last() == w.deep_view());
        assert(name_map(map@) =~= name_map(before).insert(w.id, w.name@));
    }
    assert(all.take(all.len() as int) =~= all);
    map
}

// ------------------------------------------------------------------ events --

/// What happened to a workspace, as far as it matters here.
#[derive(Debug, Clone, Copy, PartialEq, Eq, Structural)]
pub enum WorkspaceChange {
    Focus,
    Rename,
    /// The workspace became empty; sway destroys it.
    Empty,
    Other,
}

/// A workspace as an event names it.
#[derive(Debug, PartialEq, Eq)]
pub struct EventNode {
    pub id: i64,
    pub name: Option<String>,
    pub output: Option<String>,
}

pub ghost struct EventNodeView {
    pub id: i64,
    pub name: Option<Seq<char>>,
    pub output: Option<Seq<char>>,
}

impl DeepView for EventNode {
    type V = EventNodeView;

    open spec fn deep_view(&self) -> EventNodeView {
        EventNodeView {
            id: self.id,
            name: self.name.deep_view(),
            output: self.output.deep_view(),
        }
    }
}

/// A workspace event.
#[derive(Debug, PartialEq, Eq)]
pub struct WorkspaceEvent {
    pub change: WorkspaceChange,
    /// The workspace it is about; for `Focus` the one that now has the focus.
    pub current: Option<EventNode>,
    /// The workspace that had the focus before.
    pub old: Option<EventNode>,
}

pub ghost struct WorkspaceEventView {
    pub change: WorkspaceChange,
    pub current: Option<EventNodeView>,
    pub old: Option<EventNodeView>,
}

impl DeepView for WorkspaceEvent {
    type V = WorkspaceEventView;

    open spec fn deep_view(&self) -> WorkspaceEventView {
        WorkspaceEventView {
            change: self.change,
            current: self.current.deep_view(),
            old: self.old.deep_view(),
        }
    }
}

/// An event of sway's stream.
#[derive(Debug, PartialEq, Eq)]
pub enum SwayEvent {
    Workspace(WorkspaceEvent),
    /// A window or output event: only the snapshot after it matters.
    Other,
}

pub ghost enum SwayEventView {
    Workspace(WorkspaceEventView),
    Other,
}

impl DeepView for SwayEvent {
    type V = SwayEventView;

    open spec fn deep_view(&self) -> SwayEventView {
        match self {
            SwayEvent::Workspace(ev) => SwayEventView::Workspace(ev.deep_view()),
            SwayEvent::Other => SwayEventView::Other,
        }
    }
}

/// `t` unless it is empty.
pub open spec fn non_empty(t: Option<Seq<char>>) -> Option<Seq<char>> {
    match t {
        Some(s) => if s.len() == 0 {
            None
        } else {
            Some(s)
        },
        None => None,
    }
}

/// The name `node` carried before a rename: what the event says of it, else
/// what the last snapshot called the node.
pub open spec fn previous_name(
    ev: WorkspaceEventView,
    node: EventNodeView,
    names: Map<i64, Seq<char>>,
) -> Option<Seq<char>> {
    if ev.old is Some && ev.old->0.name is Some {
        ev.old->0.name
    } else if names.dom().contains(node.id) {
        Some(names[node.id])
    } else {
        None
    }
}

/// What an event means for the name-keyed caches.
pub open spec fn cache_msg(
    ev: WorkspaceEventView,
    names: Map<i64, Seq<char>>,
) -> Option<MsgView> {
    match (ev.current, ev.change) {
        (Some(node), WorkspaceChange::Rename) => {
            match (non_empty(node.name), non_empty(previous_name(ev, node, names))) {
                (Some(to), Some(from)) => if from == to {
                    None
                } else {
                    Some(MsgView::WorkspaceRenamed { from, to })
                },
                _ => None,
            }
        },
        (Some(node), WorkspaceChange::Empty) => {
            match non_empty(node.name) {
                Some(name) => Some(MsgView::WorkspaceRemoved { name }),
                None => None,
            }
        },
        _ => None,
    }
}

fn copied_name(name: &Option<String>) -> (r: Option<String>)
    ensures
        r.deep_view() == name.deep_view(),
{
    match name {
        Some(n) => Some(n.clone()),
        None => None,
    }
}

fn unless_empty(name: Option<String>) -> (r: Option<String>)
    ensures
        r.deep_view() == non_empty(name.deep_view()),
{
    match name {
        Some(n) => {
            if same_text(&n, "") {
                proof {
                    reveal_strlit("");
                }
                None
            } else {
                proof {
                    reveal_strlit("");
                    assert(n@.len() == 0 ==> n@ =~= ""@);
                }
                Some(n)
            }
        },
        None => None,
    }
}

fn name_before(
    ev: &WorkspaceEvent,
    node: &EventNode,
    names: &HashMap<i64, String>,
) -> (r: Option<String>)
    ensures
        r.deep_view() == previous_name(ev.deep_view(), node.deep_view(), name_map(names@)),
{
    if let Some(old) = &ev.old {
        if let Some(n) = &old.name {
            return Some(n.clone());
        }
    }
    match names.get(&node.id) {
        Some(n) => Some(n.clone()),
        None => None,
    }
}

/// The extra message a workspace event carries for the name-keyed caches, if
/// any.
///
/// * `Rename`: `current` holds the node under its new name, and sway leaves
///   `old` null, so the previous name is recovered from `names` by the node id,
///   which a rename does not change. A rename that cannot be named on both
///   sides is ignored: the snapshot that follows still carries the new name,
///   only the cached thumbnail is lost.
/// * `Empty`: the workspace is being destroyed.
pub fn workspace_msg(ev: &WorkspaceEvent, names: &HashMap<i64, String>) -> (r: Option<Msg>)
    ensures
        r.deep_view() == cache_msg(ev.deep_view(), name_map(names@)),
{
    let current = match &ev.current {
        Some(c) => c,
        None => {
            return None;
        },
    };
    match ev.change {
        WorkspaceChange::Rename => {
            let to = match unless_empty(copied_name(&current.name)) {
                Some(n) => n,
                None => {
                    return None;
                },
            };
            let from = match unless_empty(name_before(ev, current, names)) {
                Some(n) => n,
                None => {
                    return None;
                },
            };
            if same_text(&from, &to) {
                return None;
            }
            Some(Msg::WorkspaceRenamed { from, to })
        },
        WorkspaceChange::Empty => {
            match unless_empty(copied_name(&current.name)) {
                Some(name) => Some(Msg::WorkspaceRemoved { name }),
                None => None,
            }
        },
        _ => None,
    }
}

/// The output of the workspace `id`, for the rare case where an event does not
/// say it.
pub fn output_of_workspace(workspaces: &[SwayWorkspace], id: i64) -> (r: Option<String>)
    ensures
        r.deep_view() == (match crate::lists::first(workspaces@, |w: SwayWorkspace| w.id == id) {
            Some(w) => Some(w.output@),
            None => None,
        }),
{
    let ghost p = |w: SwayWorkspace| w.id == id;
    for i in 0..workspaces.len()
        invariant
            p == (|w: SwayWorkspace| w.id == id),
            forall|j: int| 0 <= j < i ==> !p(#[trigger] workspaces@[j]),
    {
        if workspaces[i].id == id {
            proof {
                crate::lists::lemma_position_is(workspaces@, p, i as int);
            }
            return Some(workspaces[i].output.clone());
        }
    }
    proof {
        crate::lists::lemma_position_none(workspaces@, p);
    }
    None
}

// ---------------------------------------------------------------- listener --

/// What the listener wants done next.
#[derive(Debug, PartialEq, Eq)]
pub enum IpcAction {
    /// Connect to sway.
    Connect,
    /// Read a fresh snapshot over a connection of its own: the one the events
    /// come over is one-way.
    TakeSnapshot,
    /// Subscribe to workspace, window and output events.
    Subscribe,
    /// Wait for the next event.
    NextEvent,
    /// Ask sway on which output the workspace with this node id is.
    LookUpOutput(i64),
    /// Send this to the main loop.
    Send(Msg),
    /// End the thread.
    Stop,
}

pub ghost enum IpcActionView {
    Connect,
    TakeSnapshot,
    Subscribe,
    NextEvent,
    LookUpOutput(i64),
    Send(MsgView),
    Stop,
}

impl DeepView for IpcAction {
    type V = IpcActionView;

    open spec fn deep_view(&self) -> IpcActionView {
        match self {
            IpcAction::Connect => IpcActionView::Connect,
            IpcAction::TakeSnapshot => IpcActionView::TakeSnapshot,
            IpcAction::Subscribe => IpcActionView::Subscribe,
            IpcAction::NextEvent => IpcActionView::NextEvent,
            IpcAction::LookUpOutput(id) => IpcActionView::LookUpOutput(*id),
            IpcAction::Send(m) => IpcActionView::Send(m.deep_view()),
            IpcAction::Stop => IpcActionView::Stop,
        }
    }
}

/// What came of an action; errors in sway's own words.
#[derive(Debug, PartialEq, Eq)]
pub enum IpcResult {
    Connected(Result<(), String>),
    Snapshot(Result<Snapshot, String>),
    Subscribed(Result<(), String>),
    Event(Result<SwayEvent, String>),
    /// The event stream ended.
    Ended,
    Output(Option<String>),
    /// Whether the main loop is still there to get it.
    Sent(bool),
}

pub ghost enum IpcResultView {
    Connected(Result<(), Seq<char>>),
    Snapshot(Result<SnapshotView, Seq<char>>),
    Subscribed(Result<(), Seq<char>>),
    Event(Result<SwayEventView, Seq<char>>),
    Ended,
    Output(Option<Seq<char>>),
    Sent(bool),
}

/// The error's text as a character sequence.
pub open spec fn worded<T: DeepView>(r: Result<T, String>) -> Result<T::V, Seq<char>> {
    match r {
        Ok(v) => Ok(v.deep_view()),
        Err(e) => Err(e@),
    }
}

/// Whether it worked, and the error's text as a character sequence.
pub open spec fn worded_unit(r: Result<(), String>) -> Result<(), Seq<char>> {
    match r {
        Ok(_) => Ok(()),
        Err(e) => Err(e@),
    }
}

impl DeepView for IpcResult {
    type V = IpcResultView;

    open spec fn deep_view(&self) -> IpcResultView {
        match self {
            IpcResult::Connected(r) => IpcResultView::Connected(worded_unit(*r)),
            IpcResult::Snapshot(r) => IpcResultView::Snapshot(worded(*r)),
            IpcResult::Subscribed(r) => IpcResultView::Subscribed(worded_unit(*r)),
            IpcResult::Event(r) => IpcResultView::Event(worded(*r)),
            IpcResult::Ended => IpcResultView::Ended,
            IpcResult::Output(o) => IpcResultView::Output(o.deep_view()),
            IpcResult::Sent(b) => IpcResultView::Sent(*b),
        }
    }
}

/// What the listener is waiting for.
#[derive(Debug, PartialEq, Eq)]
pub enum IpcStage {
    Connecting,
    FirstSnapshot,
    SendingFirstState,
    Subscribing,
    Listening,
    /// For the output the focus of this event went to.
    LookingUp(WorkspaceEvent),
    /// For the switch of this event to be sent.
    Announcing(WorkspaceEvent),
    /// For a cache message to be sent.
    Noting,
    Refreshing,
    SendingState,
    /// For the news that sway is gone to be sent.
    Losing,
    Stopped,
}

pub ghost enum IpcStageView {
    Connecting,
    FirstSnapshot,
    SendingFirstState,
    Subscribing,
    Listening,
    LookingUp(WorkspaceEventView),
    Announcing(WorkspaceEventView),
    Noting,
    Refreshing,
    SendingState,
    Losing,
    Stopped,
}

impl DeepView for IpcStage {
    type V = IpcStageView;

    open spec fn deep_view(&self) -> IpcStageView {
        match self {
            IpcStage::Connecting => IpcStageView::Connecting,
            IpcStage::FirstSnapshot => IpcStageView::FirstSnapshot,
            IpcStage::SendingFirstState => IpcStageView::SendingFirstState,
            IpcStage::Subscribing => IpcStageView::Subscribing,
            IpcStage::Listening => IpcStageView::Listening,
            IpcStage::LookingUp(ev) => IpcStageView::LookingUp(ev.deep_view()),
            IpcStage::Announcing(ev) => IpcStageView::Announcing(ev.deep_view()),
            IpcStage::Noting => IpcStageView::Noting,
            IpcStage::Refreshing => IpcStageView::Refreshing,
            IpcStage::SendingState => IpcStageView::SendingState,
            IpcStage::Losing => IpcStageView::Losing,
            IpcStage::Stopped => IpcStageView::Stopped,
        }
    }
}

/// The listener of the IPC thread.
#[derive(Debug)]
pub struct Listener {
    pub stage: IpcStage,
    /// Workspace node id -> name, as of the last snapshot.
    pub names: HashMap<i64, String>,
}

pub ghost struct ListenerView {
    pub stage: IpcStageView,
    pub names: Map<i64, Seq<char>>,
}

impl DeepView for Listener {
    type V = ListenerView;

    open spec fn deep_view(&self) -> ListenerView {
        ListenerView { stage: self.stage.deep_view(), names: name_map(self.names@) }
    }
}

/// The workspace that a `Focus` event says has the focus now.
pub open spec fn focus_target(ev: WorkspaceEventView) -> Option<EventNodeView> {
    if ev.change is Focus {
        ev.current
    } else {
        None
    }
}

/// The switch that a `Focus` event announces, on the given output.
pub open spec fn switch_msg(
    ev: WorkspaceEventView,
    target: EventNodeView,
    output: Option<Seq<char>>,
) -> MsgView {
    MsgView::WorkspaceSwitched {
        output: output.unwrap_or(seq![]),
        from: match ev.old {
            Some(o) => o.name,
            None => None,
        },
        to: target.name.unwrap_or(seq![]),
    }
}

impl ListenerView {
    /// Whether `r` is a result the listener waits for in its stage.
    pub open spec fn awaits(self, r: IpcResultView) -> bool {
        match self.stage {
            IpcStageView::Connecting => r is Connected,
            IpcStageView::FirstSnapshot => r is Snapshot,
            IpcStageView::Subscribing => r is Subscribed,
            IpcStageView::Listening => r is Event || r is Ended,
            IpcStageView::LookingUp(ev) => r is Output && focus_target(ev) is Some,
            IpcStageView::Refreshing => r is Snapshot,
            IpcStageView::Stopped => false,
            _ => r is Sent,
        }
    }

    pub open spec fn to(self, stage: IpcStageView, a: IpcActionView) -> (
        ListenerView,
        IpcActionView,
    ) {
        (ListenerView { stage, ..self }, a)
    }

    /// Giving up on sway, for this reason.
    pub open spec fn lose(self, why: Seq<char>) -> (ListenerView, IpcActionView) {
        self.to(IpcStageView::Losing, IpcActionView::Send(MsgView::IpcLost(why)))
    }

    /// Sending the snapshot, and remembering the names in it.
    pub open spec fn tell(self, stage: IpcStageView, s: SnapshotView) -> (
        ListenerView,
        IpcActionView,
    ) {
        (
            ListenerView { stage, names: names_of(s.workspaces) },
            IpcActionView::Send(MsgView::State(s)),
        )
    }

    /// Going on with an event once its switch, if it had one, is announced.
    pub open spec fn note(self, ev: WorkspaceEventView) -> (ListenerView, IpcActionView) {
        match cache_msg(ev, self.names) {
            Some(m) => self.to(IpcStageView::Noting, IpcActionView::Send(m)),
            None => self.to(IpcStageView::Refreshing, IpcActionView::TakeSnapshot),
        }
    }

    /// Taking up an event.
    pub open spec fn take_up(self, ev: WorkspaceEventView) -> (ListenerView, IpcActionView) {
        match focus_target(ev) {
            Some(target) => match target.output {
                Some(o) => self.to(
                    IpcStageView::Announcing(ev),
                    IpcActionView::Send(switch_msg(ev, target, Some(o))),
                ),
                None => self.to(
                    IpcStageView::LookingUp(ev),
                    IpcActionView::LookUpOutput(target.id),
                ),
            },
            None => self.note(ev),
        }
    }

    /// Where the listener goes from here, and what it wants done.
    pub open spec fn next(self, r: IpcResultView) -> (ListenerView, IpcActionView) {
        match (self.stage, r) {
            // The main loop is gone: there is nobody to tell.
            (_, IpcResultView::Sent(false)) => self.to(
                IpcStageView::Stopped,
                IpcActionView::Stop,
            ),
            (_, IpcResultView::Connected(Ok(_))) => self.to(
                IpcStageView::FirstSnapshot,
                IpcActionView::TakeSnapshot,
            ),
            (_, IpcResultView::Connected(Err(e))) => self.lose("cannot connect to sway: "@ + e),
            (IpcStageView::FirstSnapshot, IpcResultView::Snapshot(Ok(s))) => self.tell(
                IpcStageView::SendingFirstState,
                s,
            ),
            (IpcStageView::FirstSnapshot, IpcResultView::Snapshot(Err(e))) => self.lose(
                "initial snapshot failed: "@ + e,
            ),
            (IpcStageView::SendingFirstState, IpcResultView::Sent(_)) => self.to(
                IpcStageView::Subscribing,
                IpcActionView::Subscribe,
            ),
            (_, IpcResultView::Subscribed(Ok(_))) => self.to(
                IpcStageView::Listening,
                IpcActionView::NextEvent,
            ),
            (_, IpcResultView::Subscribed(Err(e))) => self.lose("subscribe failed: "@ + e),
            (_, IpcResultView::Event(Ok(SwayEventView::Workspace(ev)))) => self.take_up(ev),
            (_, IpcResultView::Event(Ok(SwayEventView::Other))) => self.to(
                IpcStageView::Refreshing,
                IpcActionView::TakeSnapshot,
            ),
            (_, IpcResultView::Event(Err(e))) => self.lose("event stream error: "@ + e),
            (_, IpcResultView::Ended) => self.lose("sway closed the event stream"@),
            (IpcStageView::LookingUp(ev), IpcResultView::Output(o)) => match focus_target(ev) {
                Some(target) => self.to(
                    IpcStageView::Announcing(ev),
                    IpcActionView::Send(switch_msg(ev, target, o)),
                ),
                None => self.to(IpcStageView::Stopped, IpcActionView::Stop),
            },
            (IpcStageView::Announcing(ev), IpcResultView::Sent(_)) => self.note(ev),
            (IpcStageView::Noting, IpcResultView::Sent(_)) => self.to(
                IpcStageView::Refreshing,
                IpcActionView::TakeSnapshot,
            ),
            (IpcStageView::Refreshing, IpcResultView::Snapshot(Ok(s))) => self.tell(
                IpcStageView::SendingState,
                s,
            ),
            // One failed read is usually sway shutting down; the event stream
            // says so next.
            (IpcStageView::Refreshing, IpcResultView::Snapshot(Err(_))) => self.to(
                IpcStageView::Listening,
                IpcActionView::NextEvent,
            ),
            (IpcStageView::SendingState, IpcResultView::Sent(_)) => self.to(
                IpcStageView::Listening,
                IpcActionView::NextEvent,
            ),
            _ => self.to(IpcStageView::Stopped, IpcActionView::Stop),
        }
    }

    /// A listener that has done nothing yet.
    pub open spec fn fresh() -> ListenerView {
        ListenerView { stage: IpcStageView::Connecting, names: Map::empty() }
    }
}

fn has_focus_target(ev: &WorkspaceEvent) -> (r: bool)
    ensures
        r == focus_target(ev.deep_view()) is Some,
{
    match ev.change {
        WorkspaceChange::Focus => ev.current.is_some(),
        _ => false,
    }
}

fn with_reason(what: &str, why: &String) -> (r: String)
    ensures
        r@ == what@ + why@,
{
    let mut text = what.to_owned();
    text.append(why);
    text
}

impl Listener {
    /// A listener, and the first thing to do for it.
    pub fn new() -> (r: (Listener, IpcAction))
        ensures
            r.0.deep_view() == ListenerView::fresh(),
            r.1.deep_view() == IpcActionView::Connect,
    {
        let names: HashMap<i64, String> = HashMap::new();
        assert(name_map(names@) =~= Map::empty());
        (Listener { stage: IpcStage::Connecting, names }, IpcAction::Connect)
    }

    fn to(&mut self, stage: IpcStage, action: IpcAction) -> (r: IpcAction)
        ensures
            (final(self).deep_view(), r.deep_view()) == old(self).deep_view().to(
                stage.deep_view(),
                action.deep_view(),
            ),
    {
        self.stage = stage;
        action
    }

    fn lose(&mut self, why: String) -> (r: IpcAction)
        ensures
            (final(self).deep_view(), r.deep_view()) == old(self).deep_view().lose(why@),
    {
        self.to(IpcStage::Losing, IpcAction::Send(Msg::IpcLost(why)))
    }

    fn tell(&mut self, stage: IpcStage, s: Snapshot) -> (r: IpcAction)
        ensures
            (final(self).deep_view(), r.deep_view()) == old(self).deep_view().tell(
                stage.deep_view(),
                s.deep_view(),
            ),
    {
        self.names = workspace_names(&s);
        self.stage = stage;
        IpcAction::Send(Msg::State(s))
    }

    fn note(&mut self, ev: &WorkspaceEvent) -> (r: IpcAction)
        ensures
            (final(self).deep_view(), r.deep_view()) == old(self).deep_view().note(ev.deep_view()),
    {
        match workspace_msg(ev, &self.names) {
            Some(m) => self.to(IpcStage::Noting, IpcAction::Send(m)),
            None => self.to(IpcStage::Refreshing, IpcAction::TakeSnapshot),
        }
    }

    fn announce(&mut self, ev: WorkspaceEvent, output: Option<String>) -> (r: IpcAction)
        requires
            focus_target(ev.deep_view()) is Some,
        ensures
            (final(self).deep_view(), r.deep_view()) == old(self).deep_view().to(
                IpcStageView::Announcing(ev.deep_view()),
                IpcActionView::Send(
                    switch_msg(
                        ev.deep_view(),
                        focus_target(ev.deep_view())->0,
                        output.deep_view(),
                    ),
                ),
            ),
    {
        proof {
            reveal_strlit("");
            assert(""@ =~= seq![]);
        }
        let to = match &ev.current {
            Some(target) => match &target.name {
                Some(n) => n.clone(),
                None => "".to_owned(),
            },
            None => "".to_owned(),
        };
        let output = match output {
            Some(o) => o,
            None => "".to_owned(),
        };
        let from = match &ev.old {
            Some(o) => copied_name(&o.name),
            None => None,
        };
        self.to(
            IpcStage::Announcing(ev),
            IpcAction::Send(Msg::WorkspaceSwitched { output, from, to }),
        )
    }

    fn take_up(&mut self, ev: WorkspaceEvent) -> (r: IpcAction)
        ensures
            (final(self).deep_view(), r.deep_view()) == old(self).deep_view().take_up(
                ev.deep_view(),
            ),
    {
        match ev.change {
            WorkspaceChange::Focus => {
                let (id, output): (i64, Option<String>) = match &ev.current {
                    Some(target) => (target.id, copied_name(&target.output)),
                    None => {
                        return self.note(&ev);
                    },
                };
                if output.is_some() {
                    self.announce(ev, output)
                } else {
                    self.to(IpcStage::LookingUp(ev), IpcAction::LookUpOutput(id))
                }
            },
            _ => self.note(&ev),
        }
    }

    /// Go on with what came of the last action. An answer to something else is
    /// taken for what it says, or ends it.
    pub fn step(&mut self, result: IpcResult) -> (r: IpcAction)
        ensures
            (final(self).deep_view(), r.deep_view()) == old(self).deep_view().next(
                result.deep_view(),
            ),
    {
        let mut stage = IpcStage::Stopped;
        std::mem::swap(&mut stage, &mut self.stage);
        match result {
            IpcResult::Connected(Ok(_)) => self.to(
                IpcStage::FirstSnapshot,
                IpcAction::TakeSnapshot,
            ),
            IpcResult::Connected(Err(e)) => self.lose(with_reason("cannot connect to sway: ", &e)),
            IpcResult::Snapshot(outcome) => match (stage, outcome) {
                (IpcStage::FirstSnapshot, Ok(s)) => self.tell(IpcStage::SendingFirstState, s),
                (IpcStage::FirstSnapshot, Err(e)) => self.lose(
                    with_reason("initial snapshot failed: ", &e),
                ),
                (IpcStage::Refreshing, Ok(s)) => self.tell(IpcStage::SendingState, s),
                (IpcStage::Refreshing, Err(_)) => self.to(
                    IpcStage::Listening,
                    IpcAction::NextEvent,
                ),
                _ => self.to(IpcStage::Stopped, IpcAction::Stop),
            },
            IpcResult::Subscribed(Ok(_)) => self.to(IpcStage::Listening, IpcAction::NextEvent),
            IpcResult::Subscribed(Err(e)) => self.lose(with_reason("subscribe failed: ", &e)),
            IpcResult::Event(Ok(SwayEvent::Workspace(ev))) => self.take_up(ev),
            IpcResult::Event(Ok(SwayEvent::Other)) => self.to(
                IpcStage::Refreshing,
                IpcAction::TakeSnapshot,
            ),
            IpcResult::Event(Err(e)) => self.lose(with_reason("event stream error: ", &e)),
            IpcResult::Ended => self.lose("sway closed the event stream".to_owned()),
            IpcResult::Output(o) => match stage {
                IpcStage::LookingUp(ev) => if has_focus_target(&ev) {
                    self.announce(ev, o)
                } else {
                    self.to(IpcStage::Stopped, IpcAction::Stop)
                },
                _ => self.to(IpcStage::Stopped, IpcAction::Stop),
            },
            IpcResult::Sent(false) => self.to(IpcStage::Stopped, IpcAction::Stop),
            IpcResult::Sent(true) => match stage {
                IpcStage::SendingFirstState => self.to(
                    IpcStage::Subscribing,
                    IpcAction::Subscribe,
                ),
                IpcStage::Announcing(ev) => self.note(&ev),
                IpcStage::Noting => self.to(IpcStage::Refreshing, IpcAction::TakeSnapshot),
                IpcStage::SendingState => self.to(IpcStage::Listening, IpcAction::NextEvent),
                _ => self.to(IpcStage::Stopped, IpcAction::Stop),
            },
        }
    }
}

// -------------------------------------------------------------------- laws --

/// Whether `r` is an answer to `a`.
pub open spec fn answers(r: IpcResultView, a: IpcActionView) -> bool {
    match a {
        IpcActionView::Connect => r is Connected,
        IpcActionView::TakeSnapshot => r is Snapshot,
        IpcActionView::Subscribe => r is Subscribed,
        IpcActionView::NextEvent => r is Event || r is Ended,
        IpcActionView::LookUpOutput(_) => r is Output,
        IpcActionView::Send(_) => r is Sent,
        IpcActionView::Stop => false,
    }
}

/// The listener waits for exactly the answers to what it asked for, from its
/// first action on.
pub proof fn law_the_listener_awaits_what_it_asked_for(
    l: ListenerView,
    r: IpcResultView,
    answer: IpcResultView,
)
    requires
        l.awaits(r),
    ensures
        ListenerView::fresh().awaits(answer) <==> answers(answer, IpcActionView::Connect),
        ({
            let (l2, a) = l.next(r);
            l2.awaits(answer) <==> answers(answer, a)
        }),
{
}

/// What the outside says while one event is dealt with: the output asked for,
/// and the snapshot taken.
pub ghost struct Surroundings {
    pub output: Option<Seq<char>>,
    pub snapshot: Result<SnapshotView, Seq<char>>,
}

/// What the listener sends until it waits for the next event or stops, in at
/// most `steps` actions, while the main loop is there.
pub open spec fn sent_from(
    at: (ListenerView, IpcActionView),
    env: Surroundings,
    steps: nat,
) -> Seq<MsgView>
    decreases steps,
{
    if steps == 0 {
        seq![]
    } else {
        let rest = (steps - 1) as nat;
        match at.1 {
            IpcActionView::Send(m) => seq![m] + sent_from(
                at.0.next(IpcResultView::Sent(true)),
                env,
                rest,
            ),
            IpcActionView::TakeSnapshot => sent_from(
                at.0.next(IpcResultView::Snapshot(env.snapshot)),
                env,
                rest,
            ),
            IpcActionView::LookUpOutput(_) => sent_from(
                at.0.next(IpcResultView::Output(env.output)),
                env,
                rest,
            ),
            _ => seq![],
        }
    }
}

/// At most one message.
pub open spec fn at_most_one(m: Option<MsgView>) -> Seq<MsgView> {
    match m {
        Some(m) => seq![m],
        None => seq![],
    }
}

/// What an event is to make the main loop hear: the switch, then what it means
/// for the caches, then the new state.
pub open spec fn told_of(
    ev: SwayEventView,
    names: Map<i64, Seq<char>>,
    env: Surroundings,
) -> Seq<MsgView> {
    let state = match env.snapshot {
        Ok(s) => seq![MsgView::State(s)],
        Err(_) => seq![],
    };
    match ev {
        SwayEventView::Workspace(ev) => {
            let switch = match focus_target(ev) {
                Some(target) => {
                    let output = if target.output is Some {
                        target.output
                    } else {
                        env.output
                    };
                    Some(switch_msg(ev, target, output))
                },
                None => None,
            };
            at_most_one(switch) + at_most_one(cache_msg(ev, names)) + state
        },
        SwayEventView::Other => state,
    }
}

/// The most actions one event takes.
pub const STEPS_PER_EVENT: u64 = 6;

/// Of every event the main loop hears the switch first, then the rename or the
/// removal, and the state that follows it last.
pub proof fn law_an_event_is_announced_before_its_state(
    l: ListenerView,
    ev: SwayEventView,
    env: Surroundings,
)
    requires
        l.stage is Listening,
    ensures
        sent_from(l.next(IpcResultView::Event(Ok(ev))), env, STEPS_PER_EVENT as nat) =~= told_of(
            ev,
            l.names,
            env,
        ),
{
    reveal_with_fuel(sent_from, 7);
}

/// A lost connection is reported once, and nothing is sent after that; nor is
/// anything once the main loop is gone. It is lost when it cannot be made, when
/// the state cannot be read the first time, when there is no subscription, and
/// when the events end or fail.
pub proof fn law_the_last_message_is_the_loss(l: ListenerView, r: IpcResultView)
    requires
        l.awaits(r),
    ensures
        l.next(r).1 matches IpcActionView::Send(MsgView::IpcLost(_)) ==> l.next(r).0.stage is Losing,
        l.stage is Losing ==> l.next(r).1 is Stop,
        r == IpcResultView::Sent(false) ==> l.next(r).1 is Stop,
        (r is Ended || r matches IpcResultView::Event(Err(_)) || r matches IpcResultView::Connected(
            Err(_),
        ) || r matches IpcResultView::Subscribed(Err(_)) || (l.stage is FirstSnapshot
            && r matches IpcResultView::Snapshot(Err(_)))) <==> l.next(r).1 matches IpcActionView::Send(
            MsgView::IpcLost(_),
        ),
{
}

/// A name is the one the last workspace of that id carried, and there is none
/// for an id that no workspace had.
pub proof fn law_names_are_of_the_last_snapshot(ws: Seq<WorkspaceView>, id: i64, k: int)
    ensures
        names_of(ws).dom().contains(id) <==> exists|j: int|
            0 <= j < ws.len() && (#[trigger] ws[j]).id == id,
        0 <= k < ws.len() && ws[k].id == id && (forall|j: int|
            k < j < ws.len() ==> (#[trigger] ws[j]).id != id) ==> names_of(ws)[id] == ws[k].name,
    decreases ws.len(),
{
    if ws.len() > 0 {
        let init = ws.drop_last();
        law_names_are_of_the_last_snapshot(init, id, k);
        assert forall|j: int| 0 <= j < init.len() implies #[trigger] ws[j] == init[j] by {}
        assert(ws[ws.len() - 1] == ws.last());
        if exists|j: int| 0 <= j < ws.len() && (#[trigger] ws[j]).id == id {
            let j = choose|j: int| 0 <= j < ws.len() && (#[trigger] ws[j]).id == id;
            if j < init.len() {
                assert(init[j].id == id);
            }
        }
        if exists|j: int| 0 <= j < init.len() && (#[trigger] init[j]).id == id {
            let j = choose|j: int| 0 <= j < init.len() && (#[trigger] init[j]).id == id;
            assert(ws[j].id == id);
        }
    }
}

/// A rename is told if both names are known, are not empty and differ: the new
/// one as the event says it, the old one as the event says it or else as the
/// node was called last.
pub proof fn law_a_rename_is_told_if_both_names_are_known(
    ev: WorkspaceEventView,
    node: EventNodeView,
    names: Map<i64, Seq<char>>,
    from: Seq<char>,
    to: Seq<char>,
)
    requires
        ev.change is Rename,
        ev.current == Some(node),
    ensures
        ({
            let said = ev.old is Some && ev.old->0.name is Some;
            let was_from = (said && ev.old->0.name == Some(from)) || (!said
                && names.dom().contains(node.id) && names[node.id] == from);
            cache_msg(ev, names) == Some(MsgView::WorkspaceRenamed { from, to }) <==> was_from
                && node.name == Some(to) && from.len() > 0 && to.len() > 0 && from != to
        }),
        cache_msg(ev, names) matches Some(m) ==> m is WorkspaceRenamed,
{
}

/// A workspace that became empty is told gone, by its name if it has one; no
/// other event says anything of the names.
pub proof fn law_an_empty_workspace_is_told_gone(
    ev: WorkspaceEventView,
    names: Map<i64, Seq<char>>,
    name: Seq<char>,
)
    requires
        !(ev.change is Rename),
    ensures
        cache_msg(ev, names) == Some(MsgView::WorkspaceRemoved { name }) <==> ev.change is Empty
            && ev.current is Some && ev.current->0.name == Some(name) && name.len() > 0,
        cache_msg(ev, names) matches Some(m) ==> m is WorkspaceRemoved,
{
}

/// A change of focus is told first of all, with the workspace that has the focus
/// now, the one that had it, and the output: the one the event names, or else
/// the one that is looked up by the workspace's id.
pub proof fn law_a_focus_change_is_told_first(
    l: ListenerView,
    ev: WorkspaceEventView,
    target: EventNodeView,
    looked_up: Option<Seq<char>>,
)
    requires
        ev.change is Focus,
        ev.current == Some(target),
    ensures
        ({
            let (l1, a1) = l.next(IpcResultView::Event(Ok(SwayEventView::Workspace(ev))));
            let (l2, a2) = l1.next(IpcResultView::Output(looked_up));
            let from = if ev.old is Some {
                ev.old->0.name
            } else {
                None
            };
            let tells = |a: IpcActionView, o: Option<Seq<char>>|
                a matches IpcActionView::Send(
                    MsgView::WorkspaceSwitched { output, from: f, to },
                ) && f == from && (o matches Some(text) ==> output == text) && (o is None
                    ==> output.len() == 0) && (target.name matches Some(n) ==> to == n) && (
                target.name is None ==> to.len() == 0);
            &&& target.output is Some ==> tells(a1, target.output)
            &&& target.output is None ==> a1 == IpcActionView::LookUpOutput(target.id) && tells(
                a2,
                looked_up,
            )
            &&& l1.names == l.names
        }),
{
}

/// A snapshot that was read is sent as it is, and its names are remembered; one
/// that could not be read later on is passed over, and the next event is waited
/// for.
pub proof fn law_a_snapshot_is_sent_as_it_is(l: ListenerView, s: SnapshotView, e: Seq<char>)
    requires
        l.stage is FirstSnapshot || l.stage is Refreshing,
    ensures
        ({
            let (l1, a1) = l.next(IpcResultView::Snapshot(Ok(s)));
            &&& a1 == IpcActionView::Send(MsgView::State(s))
            &&& l1.names == names_of(s.workspaces)
            &&& l1.next(IpcResultView::Sent(true)).1 == if l.stage is FirstSnapshot {
                IpcActionView::Subscribe
            } else {
                IpcActionView::NextEvent
            }
        }),
        l.stage is Refreshing ==> l.next(IpcResultView::Snapshot(Err(e))).1 is NextEvent
            && l.next(IpcResultView::Snapshot(Err(e))).0.names == l.names,
{
}

/// Any event makes the state be read anew: one that is not about workspaces at
/// once, others after what they say has been told.
pub proof fn law_every_event_is_followed_by_a_snapshot(l: ListenerView, ev: WorkspaceEventView)
    ensures
        l.next(IpcResultView::Event(Ok(SwayEventView::Other))).1 is TakeSnapshot,
        l.stage is Noting ==> l.next(IpcResultView::Sent(true)).1 is TakeSnapshot,
        l.stage == IpcStageView::Announcing(ev) ==> l.next(IpcResultView::Sent(true)).1
            == match cache_msg(ev, l.names) {
            Some(m) => IpcActionView::Send(m),
            None => IpcActionView::TakeSnapshot,
        },
        !(ev.change is Focus) || ev.current is None ==> l.next(
            IpcResultView::Event(Ok(SwayEventView::Workspace(ev))),
        ).1 == match cache_msg(ev, l.names) {
            Some(m) => IpcActionView::Send(m),
            None => IpcActionView::TakeSnapshot,
        },
{
}

/// The way to the first event: connect, read the state, send it, subscribe.
pub proof fn law_the_listener_begins_with_the_state(l: ListenerView, s: SnapshotView)
    requires
        l.stage is Connecting,
    ensures
        ({
            let (l1, a1) = l.next(IpcResultView::Connected(Ok(())));
            let (l2, a2) = l1.next(IpcResultView::Snapshot(Ok(s)));
            let (l3, a3) = l2.next(IpcResultView::Sent(true));
            let (l4, a4) = l3.next(IpcResultView::Subscribed(Ok(())));
            &&& a1 is TakeSnapshot
            &&& a2 == IpcActionView::Send(MsgView::State(s))
            &&& a3 is Subscribe
            &&& a4 is NextEvent
            &&& l4.stage is Listening
            &&& l4.names == names_of(s.workspaces)
        }),
{
}

/// A loss is told with its cause.
pub proof fn law_a_loss_is_told_with_its_cause(l: ListenerView, e: Seq<char>)
    ensures
        l.next(IpcResultView::Connected(Err(e))).1 == IpcActionView::Send(
            MsgView::IpcLost("cannot connect to sway: "@ + e),
        ),
        l.stage is FirstSnapshot ==> l.next(IpcResultView::Snapshot(Err(e))).1
            == IpcActionView::Send(MsgView::IpcLost("initial snapshot failed: "@ + e)),
        l.next(IpcResultView::Subscribed(Err(e))).1 == IpcActionView::Send(
            MsgView::IpcLost("subscribe failed: "@ + e),
        ),
        l.next(IpcResultView::Event(Err(e))).1 == IpcActionView::Send(
            MsgView::IpcLost("event stream error: "@ + e),
        ),
        l.next(IpcResultView::Ended).1 == IpcActionView::Send(
            MsgView::IpcLost("sway closed the event stream"@),
        ),
{
}

} // verus!
