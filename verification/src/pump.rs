//! The order in which the capture thread does things: take all commands, start
//! what is due, push everything out, sleep until something comes in, and deal
//! with that.

use vstd::prelude::*;

verus! {

/// Why the thread could not begin; errors in the system's words.
#[derive(Debug, PartialEq, Eq)]
pub enum StartFault {
    NotSpawned(String),
    /// No pipe to wake the thread by.
    NoPipe(String),
    NotConnected(String),
    /// The compositor's globals could not be had.
    NoRoundtrip(String),
    /// The thread ended before it said anything.
    Died,
}

/// What to say of a thread that could not begin.
pub open spec fn fault_text(f: StartFault) -> Seq<char> {
    match f {
        StartFault::NotSpawned(e) => "cannot spawn capture thread: "@ + e@,
        StartFault::NoPipe(e) => "pipe2: "@ + e@,
        StartFault::NotConnected(e) => "wayland connect failed: "@ + e@,
        StartFault::NoRoundtrip(e) => "wayland roundtrip failed: "@ + e@,
        StartFault::Died => "capture thread died during startup"@,
    }
}

fn with_cause(what: &str, e: &String) -> (r: String)
    ensures
        r@ == what@ + e@,
{
    let mut text = what.to_owned();
    text.append(e);
    text
}

/// What to say of a thread that could not begin.
pub fn start_fault(f: StartFault) -> (r: String)
    ensures
        r@ == fault_text(f),
{
    match f {
        StartFault::NotSpawned(e) => with_cause("cannot spawn capture thread: ", &e),
        StartFault::NoPipe(e) => with_cause("pipe2: ", &e),
        StartFault::NotConnected(e) => with_cause("wayland connect failed: ", &e),
        StartFault::NoRoundtrip(e) => with_cause("wayland roundtrip failed: ", &e),
        StartFault::Died => "capture thread died during startup".to_owned(),
    }
}

/// What to do next.
#[derive(Debug, Clone, Copy, PartialEq, Eq, Structural)]
pub enum PumpAction {
    /// Take a command, if there is one, and deal with it.
    Receive,
    /// Start the captures that are due, report the outputs, and send all
    /// requests.
    Schedule,
    /// Announce a read of the connection.
    Prepare,
    /// Wait for the connection or a wake-up, no longer than the next capture
    /// is away.
    Poll,
    /// Read from the connection.
    Read,
    /// Take back the announced read, if there is one; empty the wake-up pipe if
    /// `drain`; deal with what has been read.
    Dispatch { drain: bool },
    /// Report the outputs.
    Publish,
    /// End the thread.
    Stop,
}

/// What came of it.
#[derive(Debug, Clone, Copy, PartialEq, Eq, Structural)]
pub enum PumpEvent {
    Command,
    NoCommand,
    /// Nobody is left to send commands.
    Disconnected,
    /// Whether the requests were sent.
    Flushed(bool),
    /// Whether a read was announced; otherwise there are events to deal with.
    Prepared(bool),
    /// A signal came; the announced read has been taken back.
    Interrupted,
    PollFailed,
    /// The wait is over: whether there is something to read, whether the
    /// connection is gone, whether there was a wake-up. All `false` when it ran
    /// out.
    Polled { readable: bool, hung_up: bool, woken: bool },
    /// Whether the read went well, or had nothing to read after all.
    WasRead(bool),
    /// Whether the events were dealt with.
    Dispatched(bool),
    Published,
}

/// What the pump waits for.
#[derive(Debug, Clone, Copy, PartialEq, Eq, Structural)]
pub enum PumpStage {
    Receiving,
    Scheduling,
    Preparing,
    /// Dealing with events that were there already.
    CatchingUp,
    Polling,
    Reading { hung_up: bool, woken: bool },
    Dispatching,
    Publishing,
    Stopped,
}

/// The loop of the capture thread.
#[derive(Debug, Clone, Copy, PartialEq, Eq, Structural)]
pub struct Pump {
    pub stage: PumpStage,
}

impl Pump {
    /// Whether `e` is something the pump waits for.
    pub open spec fn awaits(self, e: PumpEvent) -> bool {
        match self.stage {
            PumpStage::Receiving => e is Command || e is NoCommand || e is Disconnected,
            PumpStage::Scheduling => e is Flushed,
            PumpStage::Preparing => e is Prepared,
            PumpStage::CatchingUp => e is Dispatched,
            PumpStage::Polling => e is Interrupted || e is PollFailed || e is Polled,
            PumpStage::Reading { hung_up, woken } => e is WasRead,
            PumpStage::Dispatching => e is Dispatched,
            PumpStage::Publishing => e is Published,
            PumpStage::Stopped => false,
        }
    }

    pub open spec fn to(stage: PumpStage, a: PumpAction) -> (Pump, PumpAction) {
        (Pump { stage }, a)
    }

    pub open spec fn stop() -> (Pump, PumpAction) {
        Self::to(PumpStage::Stopped, PumpAction::Stop)
    }

    /// The head of the loop.
    pub open spec fn again(running: bool) -> (Pump, PumpAction) {
        if running {
            Self::to(PumpStage::Receiving, PumpAction::Receive)
        } else {
            Self::stop()
        }
    }

    /// Once whatever there was has been read.
    pub open spec fn have_read(hung_up: bool, woken: bool) -> (Pump, PumpAction) {
        if hung_up {
            Self::stop()
        } else {
            Self::to(PumpStage::Dispatching, PumpAction::Dispatch { drain: woken })
        }
    }

    /// Where the pump goes from here, and what it wants done; `running` says
    /// whether the thread is to go on.
    pub open spec fn next(self, e: PumpEvent, running: bool) -> (Pump, PumpAction) {
        match (self.stage, e) {
            (PumpStage::Receiving, PumpEvent::Command) => Self::to(
                PumpStage::Receiving,
                PumpAction::Receive,
            ),
            (PumpStage::Receiving, PumpEvent::NoCommand) => if running {
                Self::to(PumpStage::Scheduling, PumpAction::Schedule)
            } else {
                Self::stop()
            },
            (PumpStage::Scheduling, PumpEvent::Flushed(true)) => Self::to(
                PumpStage::Preparing,
                PumpAction::Prepare,
            ),
            (PumpStage::Preparing, PumpEvent::Prepared(true)) => Self::to(
                PumpStage::Polling,
                PumpAction::Poll,
            ),
            (PumpStage::Preparing, PumpEvent::Prepared(false)) => Self::to(
                PumpStage::CatchingUp,
                PumpAction::Dispatch { drain: false },
            ),
            (PumpStage::CatchingUp, PumpEvent::Dispatched(true)) => Self::again(running),
            (PumpStage::Polling, PumpEvent::Interrupted) => Self::again(running),
            (PumpStage::Polling, PumpEvent::Polled { readable, hung_up, woken }) => if readable {
                Self::to(PumpStage::Reading { hung_up, woken }, PumpAction::Read)
            } else {
                Self::have_read(hung_up, woken)
            },
            (PumpStage::Reading { hung_up, woken }, PumpEvent::WasRead(true)) => Self::have_read(
                hung_up,
                woken,
            ),
            (PumpStage::Dispatching, PumpEvent::Dispatched(true)) => Self::to(
                PumpStage::Publishing,
                PumpAction::Publish,
            ),
            (PumpStage::Publishing, PumpEvent::Published) => Self::again(running),
            _ => Self::stop(),
        }
    }

    /// A pump at the head of its loop, and the first thing to do for it.
    pub fn new() -> (r: (Pump, PumpAction))
        ensures
            r == Self::again(true),
    {
        (Pump { stage: PumpStage::Receiving }, PumpAction::Receive)
    }

    fn back(running: bool) -> (r: (Pump, PumpAction))
        ensures
            r == Self::again(running),
    {
        if running {
            (Pump { stage: PumpStage::Receiving }, PumpAction::Receive)
        } else {
            (Pump { stage: PumpStage::Stopped }, PumpAction::Stop)
        }
    }

    fn go_on(hung_up: bool, woken: bool) -> (r: (Pump, PumpAction))
        ensures
            r == Self::have_read(hung_up, woken),
    {
        if hung_up {
            (Pump { stage: PumpStage::Stopped }, PumpAction::Stop)
        } else {
            (Pump { stage: PumpStage::Dispatching }, PumpAction::Dispatch { drain: woken })
        }
    }

    /// Go on with what came of the last action; anything else ends it.
    pub fn step(&mut self, e: PumpEvent, running: bool) -> (r: PumpAction)
        ensures
            (*final(self), r) == old(self).next(e, running),
    {
        let (pump, action): (Pump, PumpAction) = match (self.stage, e) {
            (PumpStage::Receiving, PumpEvent::Command) => (
                Pump { stage: PumpStage::Receiving },
                PumpAction::Receive,
            ),
            (PumpStage::Receiving, PumpEvent::NoCommand) => if running {
                (Pump { stage: PumpStage::Scheduling }, PumpAction::Schedule)
            } else {
                (Pump { stage: PumpStage::Stopped }, PumpAction::Stop)
            },
            (PumpStage::Scheduling, PumpEvent::Flushed(true)) => (
                Pump { stage: PumpStage::Preparing },
                PumpAction::Prepare,
            ),
            (PumpStage::Preparing, PumpEvent::Prepared(true)) => (
                Pump { stage: PumpStage::Polling },
                PumpAction::Poll,
            ),
            (PumpStage::Preparing, PumpEvent::Prepared(false)) => (
                Pump { stage: PumpStage::CatchingUp },
                PumpAction::Dispatch { drain: false },
            ),
            (PumpStage::CatchingUp, PumpEvent::Dispatched(true)) => Self::back(running),
            (PumpStage::Polling, PumpEvent::Interrupted) => Self::back(running),
            (PumpStage::Polling, PumpEvent::Polled { readable, hung_up, woken }) => if readable {
                (Pump { stage: PumpStage::Reading { hung_up, woken } }, PumpAction::Read)
            } else {
                Self::go_on(hung_up, woken)
            },
            (PumpStage::Reading { hung_up, woken }, PumpEvent::WasRead(true)) => Self::go_on(
                hung_up,
                woken,
            ),
            (PumpStage::Dispatching, PumpEvent::Dispatched(true)) => (
                Pump { stage: PumpStage::Publishing },
                PumpAction::Publish,
            ),
            (PumpStage::Publishing, PumpEvent::Published) => Self::back(running),
            _ => (Pump { stage: PumpStage::Stopped }, PumpAction::Stop),
        };
        self.stage = pump.stage;
        action
    }
}

/// Whether `e` is an answer to `a`.
pub open spec fn answers(e: PumpEvent, a: PumpAction) -> bool {
    match a {
        PumpAction::Receive => e is Command || e is NoCommand || e is Disconnected,
        PumpAction::Schedule => e is Flushed,
        PumpAction::Prepare => e is Prepared,
        PumpAction::Poll => e is Interrupted || e is PollFailed || e is Polled,
        PumpAction::Read => e is WasRead,
        PumpAction::Dispatch { drain } => e is Dispatched,
        PumpAction::Publish => e is Published,
        PumpAction::Stop => false,
    }
}

/// The pump waits for exactly the answers to what it asked for.
pub proof fn law_the_pump_awaits_what_it_asked_for(
    p: Pump,
    e: PumpEvent,
    running: bool,
    answer: PumpEvent,
)
    ensures
        Pump::again(true).0.awaits(answer) <==> answers(answer, Pump::again(true).1),
        ({
            let (p2, a) = p.next(e, running);
            p2.awaits(answer) <==> answers(answer, a)
        }),
{
}

/// Captures are started only once all commands have been taken and while the
/// thread is to go on; and a thread that is not to go on stops, at the latest
/// at the head of its loop.
pub proof fn law_commands_come_first(p: Pump, e: PumpEvent, running: bool)
    ensures
        p.next(e, running).1 is Schedule ==> e is NoCommand && running,
        !running && (e is NoCommand || e is Published || e is Interrupted || p.stage is CatchingUp)
            ==> p.next(e, running).1 is Stop,
{
}

/// What is done next, by what came of the last: commands are taken until there
/// is none, then captures are started and a read announced; what is there
/// already is dealt with, otherwise it is waited; what can be read is read, and
/// dealt with unless the connection is gone; and then the outputs are reported.
pub proof fn law_the_pump_goes_round(p: Pump, e: PumpEvent, running: bool, drain: bool)
    requires
        p.awaits(e),
    ensures
        ({
            let a = p.next(e, running).1;
            &&& a is Schedule <==> e is NoCommand && running
            &&& a is Prepare <==> e == PumpEvent::Flushed(true)
            &&& a is Poll <==> e == PumpEvent::Prepared(true)
            &&& a is Read <==> (e matches PumpEvent::Polled { readable, hung_up, woken }
                && readable)
            &&& a == (PumpAction::Dispatch { drain }) <==> (e == PumpEvent::Prepared(false)
                && !drain) || (e matches PumpEvent::Polled { readable, hung_up, woken }
                && !readable && !hung_up && woken == drain) || (e == PumpEvent::WasRead(true)
                && p.stage == (PumpStage::Reading { hung_up: false, woken: drain }))
            &&& a is Publish <==> e == PumpEvent::Dispatched(true) && p.stage is Dispatching
            &&& a is Receive <==> e is Command || (running && (e is Interrupted || e is Published
                || (e == PumpEvent::Dispatched(true) && p.stage is CatchingUp)))
        }),
{
}

/// What was found out by waiting is kept while the connection is read.
pub proof fn law_reading_keeps_what_was_found(p: Pump, hung_up: bool, woken: bool, running: bool)
    requires
        p.stage is Polling,
    ensures
        ({
            let (q, a) = p.next(PumpEvent::Polled { readable: true, hung_up, woken }, running);
            q.next(PumpEvent::WasRead(true), running) == p.next(
                PumpEvent::Polled { readable: false, hung_up, woken },
                running,
            )
        }),
{
}

/// What is said of a thread that could not begin names the step that failed and
/// the cause.
pub proof fn law_a_start_fault_is_named(e: String)
    ensures
        fault_text(StartFault::NotSpawned(e)) == "cannot spawn capture thread: "@ + e@,
        fault_text(StartFault::NoPipe(e)) == "pipe2: "@ + e@,
        fault_text(StartFault::NotConnected(e)) == "wayland connect failed: "@ + e@,
        fault_text(StartFault::NoRoundtrip(e)) == "wayland roundtrip failed: "@ + e@,
        fault_text(StartFault::Died) == "capture thread died during startup"@,
{
}

} // verus!
