//! The control socket: how `svitek toggle` reaches the resident instance.
//!
//! A unix stream socket. The client sends one line, the server answers `ok` or
//! `err ...` and closes. Anything that can write a line here can move the
//! user's workspaces around, so the socket is closed three ways: it is mode
//! 0600 before it has its real name, the directory in `/tmp` it may have to
//! live in is private or not used, and a peer of another user is not listened
//! to.
//!
//! Paths are bytes. Where a message speaks of one, it is given the text to
//! print for it.

use crate::model::Command;
use crate::paths::{copy_bytes, entry, with_tail};
use crate::text::{decimal_text, octal4_text, same_text, strip_prefix, trim};
use vstd::prelude::*;

verus! {

/// A client must send its line within this long, in milliseconds: connections
/// are served one at a time, and none may hold up the others.
pub const READ_TIMEOUT: u64 = 500;

/// The daemon always answers at once, so the client can be impatient too, in
/// milliseconds.
pub const CLIENT_TIMEOUT: u64 = 2_000;

/// A command line is a handful of bytes; no more than this is read.
pub const MAX_LINE: u64 = 1024;

/// How long to wait after a failed accept, in milliseconds.
pub const ACCEPT_RETRY_DELAY: u64 = 100;

/// The socket is for this user and nobody else.
pub const SOCKET_MODE: u32 = 0o600;

/// And so is the directory that is made for it.
pub const FALLBACK_DIR_MODE: u32 = 0o700;

// ---------------------------------------------------------------- location --

/// An environment variable that is set to something.
pub open spec fn set_to(var: Option<Vec<u8>>) -> Option<Seq<u8>> {
    match var {
        Some(v) => if v@.len() == 0 {
            None
        } else {
            Some(v@)
        },
        None => None,
    }
}

/// The private directory of user `uid` under `/tmp`.
pub open spec fn fallback_dir_of(uid: u32) -> Seq<u8> {
    vstd::utf8::encode_utf8("/tmp/svitek-"@ + crate::text::decimal(uid as nat))
}

/// Where the socket goes, and the directory that has to be made for it.
pub open spec fn location(
    svitek_socket: Option<Vec<u8>>,
    xdg_runtime_dir: Option<Vec<u8>>,
    uid: u32,
) -> (Seq<u8>, Option<Seq<u8>>) {
    match (set_to(svitek_socket), set_to(xdg_runtime_dir)) {
        (Some(path), _) => (path, None),
        (None, Some(dir)) => (crate::paths::entry_of(dir, "svitek.sock"@), None),
        (None, None) => (
            crate::paths::entry_of(fallback_dir_of(uid), "svitek.sock"@),
            Some(fallback_dir_of(uid)),
        ),
    }
}

/// The private directory the socket lives in when there is no
/// `$XDG_RUNTIME_DIR`. One per uid, because `/tmp` is shared.
pub fn fallback_dir(uid: u32) -> (r: Vec<u8>)
    ensures
        r@ == fallback_dir_of(uid),
{
    let mut text = "/tmp/svitek-".to_owned();
    text.append(&decimal_text(uid as u64));
    let empty: Vec<u8> = Vec::new();
    let r = with_tail(&empty, &text);
    assert(r@ =~= vstd::utf8::encode_utf8(text@));
    r
}

/// Where the socket goes, given `$SVITEK_SOCKET`, `$XDG_RUNTIME_DIR` and the
/// user, and the directory that has to be made for it: only the one in `/tmp`,
/// the others live in a directory that somebody else already owns.
pub fn socket_location(
    svitek_socket: &Option<Vec<u8>>,
    xdg_runtime_dir: &Option<Vec<u8>>,
    uid: u32,
) -> (r: (Vec<u8>, Option<Vec<u8>>))
    ensures
        ({
            let (path, dir) = location(*svitek_socket, *xdg_runtime_dir, uid);
            &&& r.0@ == path
            &&& r.1 is Some <==> dir is Some
            &&& r.1 matches Some(d) ==> dir == Some(d@)
        }),
{
    if let Some(p) = svitek_socket {
        if p.len() > 0 {
            return (copy_bytes(p), None);
        }
    }
    if let Some(dir) = xdg_runtime_dir {
        if dir.len() > 0 {
            return (entry(dir, "svitek.sock"), None);
        }
    }
    let dir = fallback_dir(uid);
    let path = entry(&dir, "svitek.sock");
    (path, Some(dir))
}

/// Where the socket is. It creates nothing and checks nothing.
pub fn socket_path(
    svitek_socket: &Option<Vec<u8>>,
    xdg_runtime_dir: &Option<Vec<u8>>,
    uid: u32,
) -> (r: Vec<u8>)
    ensures
        r@ == location(*svitek_socket, *xdg_runtime_dir, uid).0,
{
    socket_location(svitek_socket, xdg_runtime_dir, uid).0
}

/// The name a socket is made under before it gets its own: `<path>.<pid>`.
pub fn temporary_path(path: &Vec<u8>, pid: u32) -> (r: Vec<u8>)
    ensures
        r@ == path@ + vstd::utf8::encode_utf8("."@ + crate::text::decimal(pid as nat)),
{
    let mut tail = ".".to_owned();
    tail.append(&decimal_text(pid as u64));
    with_tail(path, &tail)
}

// ------------------------------------------------------- private directory --

/// What is known of a directory without following a link.
#[derive(Debug, Clone, Copy, PartialEq, Eq, Structural)]
pub struct DirFacts {
    pub is_dir: bool,
    pub uid: u32,
    /// File type and permission bits, as `stat` reports them.
    pub mode: u32,
}

/// What came of a step towards a private directory; errors in the system's
/// words.
#[derive(Debug, PartialEq, Eq)]
pub enum DirResult {
    /// `false` when it was there already.
    Created(Result<bool, String>),
    ModeSet(Result<(), String>),
    Facts(Result<DirFacts, String>),
}

/// The next step towards a private directory.
#[derive(Debug, PartialEq, Eq)]
pub enum DirAction {
    /// Set the mode to [`FALLBACK_DIR_MODE`].
    SetMode,
    /// Look at it, without following a link.
    Stat,
    Done(Result<(), String>),
}

/// The permission bits of a mode.
pub open spec fn permissions(mode: u32) -> nat {
    (mode % 4096) as nat
}

/// Why a directory is not one to put the socket in, if it is not. `dir` is its
/// name, `us` the user.
pub open spec fn objection(dir: Seq<char>, us: u32, f: DirFacts) -> Option<Seq<char>> {
    if !f.is_dir {
        Some(
            dir
                + " exists and is not a directory; refusing to put the control socket there"@,
        )
    } else if f.uid != us {
        Some(
            dir + " is owned by uid "@ + crate::text::decimal(f.uid as nat) + ", not "@
                + crate::text::decimal(us as nat) + "; refusing to put the control socket there"@,
        )
    } else if permissions(f.mode) != FALLBACK_DIR_MODE {
        Some(
            dir + " has mode "@ + crate::text::octal4(permissions(f.mode)) + ", expected "@
                + crate::text::octal4(FALLBACK_DIR_MODE as nat)
                + "; refusing to put the control socket there"@,
        )
    } else {
        None
    }
}

/// The step that follows a result.
pub open spec fn dir_step(dir: Seq<char>, us: u32, r: DirResult, a: DirAction) -> bool {
    match r {
        DirResult::Created(Ok(true)) => a is SetMode,
        DirResult::Created(Ok(false)) => a is Stat,
        DirResult::Created(Err(e)) => a matches DirAction::Done(Err(why)) && why@ == "cannot create "@
            + dir + ": "@ + e@,
        DirResult::ModeSet(Ok(_)) => a is Stat,
        DirResult::ModeSet(Err(e)) => a matches DirAction::Done(Err(why)) && why@
            == "cannot set the mode of "@ + dir + ": "@ + e@,
        DirResult::Facts(Ok(f)) => match objection(dir, us, f) {
            None => a matches DirAction::Done(Ok(_)),
            Some(text) => a matches DirAction::Done(Err(why)) && why@ == text,
        },
        DirResult::Facts(Err(e)) => a matches DirAction::Done(Err(why)) && why@ == "cannot stat "@
            + dir + ": "@ + e@,
    }
}

fn spelled(a: &str, b: &str, c: &str, d: &str) -> (r: String)
    ensures
        r@ == a@ + b@ + c@ + d@,
{
    let mut text = a.to_owned();
    text.append(b);
    text.append(c);
    text.append(d);
    text
}

fn permission_bits(mode: u32) -> (r: u32)
    ensures
        r == permissions(mode),
{
    let bits: u32 = mode & 0o7777;
    assert(mode & 0o7777 == mode % 4096) by (bit_vector);
    bits
}

fn check_dir(dir: &str, us: u32, f: DirFacts) -> (r: Result<(), String>)
    ensures
        match objection(dir@, us, f) {
            None => r is Ok,
            Some(text) => r matches Err(why) && why@ == text,
        },
{
    if !f.is_dir {
        let mut why = dir.to_owned();
        why.append(" exists and is not a directory; refusing to put the control socket there");
        return Err(why);
    }
    if f.uid != us {
        let mut why = dir.to_owned();
        why.append(" is owned by uid ");
        why.append(&decimal_text(f.uid as u64));
        why.append(", not ");
        why.append(&decimal_text(us as u64));
        why.append("; refusing to put the control socket there");
        return Err(why);
    }
    let mode: u32 = permission_bits(f.mode);
    if mode != FALLBACK_DIR_MODE {
        let mut why = dir.to_owned();
        why.append(" has mode ");
        why.append(&octal4_text(mode));
        why.append(", expected ");
        why.append(&octal4_text(FALLBACK_DIR_MODE));
        why.append("; refusing to put the control socket there");
        return Err(why);
    }
    Ok(())
}

/// Create or adopt a directory that only we can enter: having tried to make it
/// with [`FALLBACK_DIR_MODE`], hand in what came of it, and go on from there.
///
/// `/tmp` is world-writable, so what is already there is not trusted: it has to
/// be a directory and no link to one, ours, and of exactly that mode. Only a
/// directory made just now has its mode set (making it is subject to the
/// umask).
pub fn ensure_private_dir(dir: &str, us: u32, r: DirResult) -> (a: DirAction)
    ensures
        dir_step(dir@, us, r, a),
{
    match r {
        DirResult::Created(Ok(true)) => DirAction::SetMode,
        DirResult::Created(Ok(false)) => DirAction::Stat,
        DirResult::Created(Err(e)) => DirAction::Done(
            Err(spelled("cannot create ", dir, ": ", &e)),
        ),
        DirResult::ModeSet(Ok(_)) => DirAction::Stat,
        DirResult::ModeSet(Err(e)) => DirAction::Done(
            Err(spelled("cannot set the mode of ", dir, ": ", &e)),
        ),
        DirResult::Facts(Ok(f)) => DirAction::Done(check_dir(dir, us, f)),
        DirResult::Facts(Err(e)) => DirAction::Done(Err(spelled("cannot stat ", dir, ": ", &e))),
    }
}

// ----------------------------------------------------------------- binding --

/// What came of a step towards a bound socket; errors in the system's words.
#[derive(Debug, PartialEq, Eq)]
pub enum BindResult {
    /// Somebody answered on the socket.
    Answered,
    /// Nobody did, or there is none.
    Free,
    NotProbed(String),
    /// Whatever was under the temporary name is gone.
    Cleared(Result<(), String>),
    /// A listener is bound to the temporary name.
    Bound(Result<(), String>),
    ModeSet(Result<(), String>),
    /// Device and inode of the temporary name.
    Identity(Result<(u64, u64), String>),
    Renamed(Result<(), String>),
    Discarded,
}

/// The next step towards a bound socket.
#[derive(Debug, PartialEq, Eq)]
pub enum BindAction {
    /// Remove the temporary name, if it is there.
    Clear,
    /// Listen on the temporary name.
    Bind,
    /// Set the mode of the temporary name to [`SOCKET_MODE`].
    SetMode,
    /// Look at the temporary name.
    Stat,
    /// Give the socket its own name in place of the temporary one.
    Rename,
    /// Close the listener and remove the temporary name.
    Discard,
    /// The device and inode of the socket, or why there is none.
    Done(Result<(u64, u64), String>),
}

/// A socket being bound.
#[derive(Debug, PartialEq, Eq)]
pub struct Binding {
    /// What to print for the socket.
    pub path: String,
    /// What to print for its temporary name.
    pub temporary: String,
    /// Device and inode, once known.
    pub identity: Option<(u64, u64)>,
    /// Why it cannot be finished.
    pub failure: Option<String>,
}

/// Being done without a socket, for this reason.
pub open spec fn refused(a: BindAction, why: Seq<char>) -> bool {
    a matches BindAction::Done(Err(text)) && text@ == why
}

impl Binding {
    /// What is to be printed when the socket cannot be finished.
    pub open spec fn cannot_install(self, e: Seq<char>) -> Seq<char> {
        "cannot install control socket "@ + self.path@ + ": "@ + e
    }

    /// Giving up on a listener that is already bound.
    pub open spec fn gives_up(self, e: Seq<char>, after: Binding, a: BindAction) -> bool {
        &&& a is Discard
        &&& after.path@ == self.path@
        &&& after.temporary@ == self.temporary@
        &&& after.failure matches Some(why) && why@ == self.cannot_install(e)
    }

    /// Whether the step from `self` with `r` leads to `after` and asks for `a`.
    pub open spec fn leads_to(self, r: BindResult, after: Binding, a: BindAction) -> bool {
        match r {
            BindResult::Answered => refused(a, "svitek is already running"@) && after == self,
            BindResult::Free => a is Clear && after == self,
            BindResult::NotProbed(e) => refused(
                a,
                "control socket "@ + self.path@ + " exists but cannot be probed: "@ + e@,
            ) && after == self,
            BindResult::Cleared(Ok(_)) => a is Bind && after == self,
            BindResult::Cleared(Err(e)) => refused(
                a,
                "cannot clear "@ + self.temporary@ + ": "@ + e@,
            ) && after == self,
            BindResult::Bound(Ok(_)) => a is SetMode && after == self,
            BindResult::Bound(Err(e)) => refused(
                a,
                "cannot bind control socket "@ + self.temporary@ + ": "@ + e@,
            ) && after == self,
            BindResult::ModeSet(Ok(_)) => a is Stat && after == self,
            BindResult::ModeSet(Err(e)) => self.gives_up(e@, after, a),
            BindResult::Identity(Ok(id)) => a is Rename && after == (Binding {
                identity: Some(id),
                ..self
            }),
            BindResult::Identity(Err(e)) => self.gives_up(e@, after, a),
            BindResult::Renamed(Ok(_)) => {
                &&& a matches BindAction::Done(Ok(id)) && Some(id) == self.identity
                &&& after == self
            },
            BindResult::Renamed(Err(e)) => self.gives_up(e@, after, a),
            BindResult::Discarded => {
                &&& a matches BindAction::Done(Err(text)) && Some(text) == self.failure
                &&& after == self
            },
        }
    }

    /// A socket to be bound. First of all it is probed: somebody answering
    /// means that an instance is alive.
    pub fn new(path: String, temporary: String) -> (r: Binding)
        ensures
            r.path@ == path@,
            r.temporary@ == temporary@,
            r.identity is None,
            r.failure is None,
    {
        Binding { path, temporary, identity: None, failure: None }
    }

    fn give_up(&mut self, e: &str) -> (a: BindAction)
        ensures
            old(self).gives_up(e@, *final(self), a),
    {
        self.failure = Some(spelled("cannot install control socket ", &self.path, ": ", e));
        BindAction::Discard
    }

    /// Go on with what came of the last step.
    ///
    /// The socket is never made under its own name: binding is subject to the
    /// umask, and a permissive one would leave it writable for all until its
    /// mode is set. Renaming is atomic, so a client finds either the old socket
    /// or the finished new one.
    pub fn step(&mut self, r: BindResult) -> (a: BindAction)
        requires
            r is Renamed ==> old(self).identity is Some,
            r is Discarded ==> old(self).failure is Some,
        ensures
            old(self).leads_to(r, *final(self), a),
    {
        match r {
            BindResult::Answered => BindAction::Done(Err("svitek is already running".to_owned())),
            BindResult::Free => BindAction::Clear,
            BindResult::NotProbed(e) => BindAction::Done(
                Err(
                    spelled(
                        "control socket ",
                        &self.path,
                        " exists but cannot be probed: ",
                        &e,
                    ),
                ),
            ),
            BindResult::Cleared(Ok(_)) => BindAction::Bind,
            BindResult::Cleared(Err(e)) => BindAction::Done(
                Err(spelled("cannot clear ", &self.temporary, ": ", &e)),
            ),
            BindResult::Bound(Ok(_)) => BindAction::SetMode,
            BindResult::Bound(Err(e)) => BindAction::Done(
                Err(spelled("cannot bind control socket ", &self.temporary, ": ", &e)),
            ),
            BindResult::ModeSet(Ok(_)) => BindAction::Stat,
            BindResult::ModeSet(Err(e)) => self.give_up(&e),
            BindResult::Identity(Ok(id)) => {
                self.identity = Some(id);
                BindAction::Rename
            },
            BindResult::Identity(Err(e)) => self.give_up(&e),
            BindResult::Renamed(Ok(_)) => match self.identity {
                Some(id) => BindAction::Done(Ok(id)),
                None => self.give_up(""),
            },
            BindResult::Renamed(Err(e)) => self.give_up(&e),
            BindResult::Discarded => match &self.failure {
                Some(why) => BindAction::Done(Err(why.clone())),
                None => self.give_up(""),
            },
        }
    }
}

/// The socket this process bound, once it has one.
#[derive(Debug, Clone, Copy, PartialEq, Eq)]
pub struct Bound {
    pub identity: Option<(u64, u64)>,
}

impl Bound {
    pub fn new() -> (r: Bound)
        ensures
            r.identity is None,
    {
        Bound { identity: None }
    }

    /// Remember the socket. The first one counts.
    pub fn set(&mut self, id: (u64, u64))
        ensures
            final(self).identity == (if old(self).identity is Some {
                old(self).identity
            } else {
                Some(id)
            }),
    {
        if self.identity.is_none() {
            self.identity = Some(id);
        }
    }
}

/// Device and inode of the socket this process bound.
pub fn socket_identity(bound: &Bound) -> (r: Option<(u64, u64)>)
    ensures
        r == bound.identity,
{
    bound.identity
}

/// What is found at the path of the socket.
#[derive(Debug, Clone, Copy, PartialEq, Eq, Structural)]
pub enum Found {
    /// Something with this device and inode.
    Identity(u64, u64),
    Absent,
    /// It cannot be told.
    Unknown,
}

/// Whether the socket file is to be removed on exit: only while it is still the
/// one that was bound. A successor can have put its own there, and removing
/// that would leave it listening on a socket nobody can reach. `None` means
/// whatever is there.
pub fn cleanup(expect: Option<(u64, u64)>, found: Found) -> (remove: bool)
    ensures
        remove == (expect matches Some(id) ==> found == Found::Identity(id.0, id.1)),
{
    match expect {
        Some((dev, ino)) => match found {
            Found::Identity(d, i) => d == dev && i == ino,
            _ => false,
        },
        None => true,
    }
}

// ------------------------------------------------------------------ client --

/// How far a client got; errors in the system's words.
#[derive(Debug, PartialEq, Eq)]
pub enum Exchange {
    NotConnected(String),
    NotSent(String),
    NoReply(String),
    Replied(String),
}

/// The line that asks for `cmd`.
pub open spec fn request(cmd: Command) -> Seq<char> {
    crate::model::command_name(cmd).push('\n')
}

/// The line that asks for `cmd`.
pub fn request_line(cmd: Command) -> (r: String)
    ensures
        r@ == request(cmd),
{
    let mut line = cmd.as_str().to_owned();
    line.push('\n');
    line
}

/// What to tell a user whose daemon is not there.
pub open spec fn not_running_text(path: Seq<char>, why: Seq<char>) -> Seq<char> {
    "svitek is not running ("@ + path + ": "@ + why
        + ") — is `exec svitek` in your sway config?"@
}

fn not_running(path: &str, why: &str) -> (r: String)
    ensures
        r@ == not_running_text(path@, why@),
{
    let mut text = spelled("svitek is not running (", path, ": ", why);
    text.append(") — is `exec svitek` in your sway config?");
    text
}

/// What a reply says, without the word that marks a refusal.
pub open spec fn refusal_text(reply: Seq<char>) -> Seq<char> {
    if crate::text::starts_with(reply, "err "@) {
        reply.skip("err "@.len() as int)
    } else {
        reply
    }
}

/// What `e` means to the one who asked for `cmd` at `path`: why it failed, or
/// nothing.
pub open spec fn failure_of(path: Seq<char>, cmd: Command, e: Exchange) -> Option<Seq<char>> {
    match e {
        Exchange::NotConnected(why) => Some(not_running_text(path, why@)),
        Exchange::NotSent(why) => Some(not_running_text(path, why@)),
        Exchange::NoReply(why) => Some("no reply from svitek on "@ + path + ": "@ + why@),
        Exchange::Replied(reply) => {
            let said = crate::text::trimmed(reply@);
            if said == "ok"@ {
                None
            } else if said.len() == 0 {
                Some(not_running_text(path, "the running instance closed the connection"@))
            } else {
                Some(
                    "svitek refused `"@ + crate::model::command_name(cmd) + "`: "@ + refusal_text(
                        said,
                    ),
                )
            }
        },
    }
}

/// What became of a command that a client sent to the socket at `path`.
pub fn send(path: &str, cmd: Command, exchange: Exchange) -> (r: Result<(), String>)
    ensures
        match failure_of(path@, cmd, exchange) {
            None => r is Ok,
            Some(text) => r matches Err(why) && why@ == text,
        },
{
    match exchange {
        Exchange::NotConnected(why) => Err(not_running(path, &why)),
        Exchange::NotSent(why) => Err(not_running(path, &why)),
        Exchange::NoReply(why) => Err(spelled("no reply from svitek on ", path, ": ", &why)),
        Exchange::Replied(reply) => {
            let said = trim(&reply);
            proof {
                reveal_strlit("");
                assert(said@.len() == 0 <==> said@ =~= ""@);
            }
            if same_text(&said, "ok") {
                return Ok(());
            }
            if same_text(&said, "") {
                proof {
                    reveal_strlit("ok");
                }
                return Err(not_running(path, "the running instance closed the connection"));
            }
            let why = match strip_prefix(&said, "err ") {
                Some(rest) => rest,
                None => said,
            };
            Err(spelled("svitek refused `", cmd.as_str(), "`: ", &why))
        },
    }
}

// ------------------------------------------------------------------ server --

/// What is known of a connection so far.
#[derive(Debug, PartialEq, Eq)]
pub enum ServeInput {
    /// The user on the other end, if the kernel says so.
    Peer(Option<u32>),
    /// The line that was read.
    Line(String),
    /// The other end closed without sending anything.
    NoLine,
    /// Nothing could be read, or no text.
    NotRead,
    /// Whether the main loop took the command.
    Queued(bool),
}

/// What to do with a connection.
#[derive(Debug, PartialEq, Eq)]
pub enum ServeAction {
    /// Read a line of at most [`MAX_LINE`] bytes.
    ReadLine,
    /// Hand the command to the main loop.
    Queue(Command),
    /// Say nothing and wait for the next connection.
    Hang,
    /// Send this, and wait for the next connection unless `stop`.
    Reply { text: String, stop: bool },
}

pub ghost enum ServeActionView {
    ReadLine,
    Queue(Command),
    Hang,
    Reply { text: Seq<char>, stop: bool },
}

impl DeepView for ServeAction {
    type V = ServeActionView;

    open spec fn deep_view(&self) -> ServeActionView {
        match self {
            ServeAction::ReadLine => ServeActionView::ReadLine,
            ServeAction::Queue(c) => ServeActionView::Queue(*c),
            ServeAction::Hang => ServeActionView::Hang,
            ServeAction::Reply { text, stop } => ServeActionView::Reply {
                text: text@,
                stop: *stop,
            },
        }
    }
}

/// What to do with a connection to user `us`.
pub open spec fn served(us: u32, input: ServeInput) -> ServeActionView {
    match input {
        ServeInput::Peer(Some(uid)) => if uid == us {
            ServeActionView::ReadLine
        } else {
            ServeActionView::Hang
        },
        ServeInput::Peer(None) => ServeActionView::Hang,
        ServeInput::Line(line) => match crate::model::command_named(
            crate::text::trimmed(line@),
        ) {
            Some(cmd) => ServeActionView::Queue(cmd),
            None => ServeActionView::Reply { text: "err unknown command\n"@, stop: false },
        },
        ServeInput::NoLine => ServeActionView::Hang,
        ServeInput::NotRead => ServeActionView::Hang,
        ServeInput::Queued(true) => ServeActionView::Reply { text: "ok\n"@, stop: false },
        ServeInput::Queued(false) => ServeActionView::Reply {
            text: "err svitek is shutting down\n"@,
            stop: true,
        },
    }
}

/// Serve one connection to user `us`, from its peer's credentials on.
///
/// A peer that is not us is neither read nor answered. A command is queued
/// first and answered second: `ok` means that the daemon will act.
pub fn serve(us: u32, input: ServeInput) -> (r: ServeAction)
    ensures
        r.deep_view() == served(us, input),
{
    match input {
        ServeInput::Peer(Some(uid)) => {
            if uid == us {
                ServeAction::ReadLine
            } else {
                ServeAction::Hang
            }
        },
        ServeInput::Peer(None) => ServeAction::Hang,
        ServeInput::Line(line) => match Command::parse(&line) {
            Some(cmd) => ServeAction::Queue(cmd),
            None => ServeAction::Reply { text: "err unknown command\n".to_owned(), stop: false },
        },
        ServeInput::NoLine => ServeAction::Hang,
        ServeInput::NotRead => ServeAction::Hang,
        ServeInput::Queued(true) => ServeAction::Reply { text: "ok\n".to_owned(), stop: false },
        ServeInput::Queued(false) => ServeAction::Reply {
            text: "err svitek is shutting down\n".to_owned(),
            stop: true,
        },
    }
}

// -------------------------------------------------------------------- laws --

/// A directory is accepted if and only if it is a directory, ours, and of
/// exactly the private mode.
pub proof fn law_only_a_private_directory_is_accepted(dir: Seq<char>, us: u32, f: DirFacts)
    ensures
        objection(dir, us, f) is None <==> f.is_dir && f.uid == us && permissions(f.mode)
            == FALLBACK_DIR_MODE,
{
}

/// Only a directory made just now has its mode changed, and nothing is accepted
/// without having been looked at.
pub proof fn law_only_own_directories_are_changed(
    dir: Seq<char>,
    us: u32,
    r: DirResult,
    a: DirAction,
)
    requires
        dir_step(dir, us, r, a),
    ensures
        a is SetMode <==> r == DirResult::Created(Ok(true)),
        a matches DirAction::Done(Ok(_)) ==> r matches DirResult::Facts(Ok(_)),
{
}

/// The socket gets its name only once it has its mode and its identity is
/// known, and from its being bound on every failure takes it away again.
pub proof fn law_the_socket_is_private_before_it_has_its_name(
    b: Binding,
    r: BindResult,
    after: Binding,
    a: BindAction,
)
    requires
        b.leads_to(r, after, a),
    ensures
        a is SetMode <==> r matches BindResult::Bound(Ok(_)),
        a is Stat <==> r matches BindResult::ModeSet(Ok(_)),
        a is Rename <==> r matches BindResult::Identity(Ok(_)),
        a matches BindAction::Done(Ok(_)) <==> r matches BindResult::Renamed(Ok(_)),
        r matches BindResult::Identity(Ok(id)) ==> after.identity == Some(id),
        r matches BindResult::Renamed(Ok(_)) ==> (a matches BindAction::Done(Ok(id)) && b.identity
            == Some(id)),
        a is Discard <==> (r matches BindResult::ModeSet(Err(_)) || r matches BindResult::Identity(
            Err(_),
        ) || r matches BindResult::Renamed(Err(_))),
{
}

/// A socket somebody answers on is left alone: there is one daemon at a time.
pub proof fn law_a_second_instance_refuses_to_start(b: Binding, after: Binding, a: BindAction)
    requires
        b.leads_to(BindResult::Answered, after, a),
    ensures
        refused(a, "svitek is already running"@),
{
}

/// A peer is read if and only if it is of our own user; any other is neither
/// read nor answered.
pub proof fn law_strangers_are_neither_heard_nor_answered(us: u32, peer: Option<u32>)
    ensures
        served(us, ServeInput::Peer(peer)) == if peer == Some(us) {
            ServeActionView::ReadLine
        } else {
            ServeActionView::Hang
        },
{
}

/// `ok` is said only of a command that the main loop has taken, and serving
/// ends only when the main loop is gone.
pub proof fn law_ok_means_queued(us: u32, input: ServeInput, text: Seq<char>, stop: bool)
    requires
        served(us, input) == (ServeActionView::Reply { text, stop }),
    ensures
        text == "ok\n"@ ==> input == ServeInput::Queued(true),
        stop <==> input == ServeInput::Queued(false),
{
    reveal_strlit("ok\n");
    reveal_strlit("err unknown command\n");
    reveal_strlit("err svitek is shutting down\n");
    assert("ok\n"@[0] == 'o');
    assert("err unknown command\n"@[0] == 'e');
    assert("err svitek is shutting down\n"@[0] == 'e');
}

proof fn lemma_a_reply_is_its_words(words: Seq<char>, reply: Seq<char>)
    requires
        reply == words.push('\n'),
        words.len() > 0,
        !crate::text::is_blank(words[0]),
        !crate::text::is_blank(words.last()),
    ensures
        crate::text::trimmed(reply) == words,
{
    crate::text::lemma_trim_drops_a_trailing_blank(words, '\n');
    crate::text::lemma_trim_keeps_a_word(words);
}

/// What a client asks for is what the server hears, and once the main loop has
/// taken it the client is told so.
pub proof fn law_a_command_goes_through(
    us: u32,
    path: Seq<char>,
    cmd: Command,
    line: String,
    reply: String,
)
    requires
        line@ == request(cmd),
        reply@ == "ok\n"@,
    ensures
        served(us, ServeInput::Line(line)) == ServeActionView::Queue(cmd),
        served(us, ServeInput::Queued(true)) == (ServeActionView::Reply {
            text: reply@,
            stop: false,
        }),
        failure_of(path, cmd, Exchange::Replied(reply)) is None,
{
    crate::model::law_commands_round_trip(cmd);
    reveal_strlit("ok\n");
    reveal_strlit("ok");
    assert("ok\n"@ =~= "ok"@.push('\n'));
    lemma_a_reply_is_its_words("ok"@, reply@);
}

/// A line that is no command is refused, serving goes on, and the client is
/// told why; and so it is when the main loop is gone.
pub proof fn law_refusals_reach_the_client(
    us: u32,
    path: Seq<char>,
    cmd: Command,
    line: String,
    unknown: String,
    closing: String,
)
    requires
        crate::model::command_named(crate::text::trimmed(line@)) is None,
        unknown@ == "err unknown command\n"@,
        closing@ == "err svitek is shutting down\n"@,
    ensures
        served(us, ServeInput::Line(line)) == (ServeActionView::Reply {
            text: unknown@,
            stop: false,
        }),
        failure_of(path, cmd, Exchange::Replied(unknown)) == Some(
            "svitek refused `"@ + crate::model::command_name(cmd) + "`: "@ + "unknown command"@,
        ),
        served(us, ServeInput::Queued(false)) == (ServeActionView::Reply {
            text: closing@,
            stop: true,
        }),
        failure_of(path, cmd, Exchange::Replied(closing)) == Some(
            "svitek refused `"@ + crate::model::command_name(cmd) + "`: "@
                + "svitek is shutting down"@,
        ),
{
    reveal_strlit("ok");
    reveal_strlit("err ");
    reveal_strlit("err unknown command\n");
    reveal_strlit("err svitek is shutting down\n");
    reveal_strlit("unknown command");
    reveal_strlit("svitek is shutting down");
    let first = "err "@ + "unknown command"@;
    let second = "err "@ + "svitek is shutting down"@;
    assert("err unknown command\n"@ =~= first.push('\n'));
    assert("err svitek is shutting down\n"@ =~= second.push('\n'));
    lemma_a_reply_is_its_words(first, unknown@);
    lemma_a_reply_is_its_words(second, closing@);
    assert(first.take("err "@.len() as int) =~= "err "@);
    assert(second.take("err "@.len() as int) =~= "err "@);
    assert(first.skip("err "@.len() as int) =~= "unknown command"@);
    assert(second.skip("err "@.len() as int) =~= "svitek is shutting down"@);
}

/// The socket is where the first of these says: the variable of its own, taken
/// as it is; the runtime directory; and a directory of the user's own in `/tmp`,
/// which is the only one that is made. A variable that is empty is not set.
pub proof fn law_the_socket_is_where_it_is_said_to_be(
    svitek_socket: Option<Vec<u8>>,
    xdg_runtime_dir: Option<Vec<u8>>,
    uid: u32,
)
    ensures
        ({
            let (path, dir) = location(svitek_socket, xdg_runtime_dir, uid);
            let own = svitek_socket is Some && svitek_socket->0@.len() > 0;
            let runtime = xdg_runtime_dir is Some && xdg_runtime_dir->0@.len() > 0;
            let tmp = vstd::utf8::encode_utf8("/tmp/svitek-"@ + crate::text::decimal(uid as nat));
            &&& own ==> path == svitek_socket->0@ && dir is None
            &&& !own && runtime ==> path == crate::paths::entry_of(
                xdg_runtime_dir->0@,
                "svitek.sock"@,
            ) && dir is None
            &&& !own && !runtime ==> path == crate::paths::entry_of(tmp, "svitek.sock"@) && dir
                == Some(tmp)
        }),
{
}

/// A directory is objected to for the first thing that is wrong with it: that it
/// is none, whose it is, or its mode, all bits of which but the file type count.
pub proof fn law_the_first_thing_wrong_is_told(dir: Seq<char>, us: u32, f: DirFacts)
    ensures
        ({
            let end = "; refusing to put the control socket there"@;
            let told = objection(dir, us, f);
            &&& told is None <==> f.is_dir && f.uid == us && f.mode & 0o7777 == 0o700
            &&& !f.is_dir ==> told == Some(
                dir
                    + " exists and is not a directory; refusing to put the control socket there"@,
            )
            &&& f.is_dir && f.uid != us ==> told == Some(
                dir + " is owned by uid "@ + crate::text::decimal(f.uid as nat) + ", not "@
                    + crate::text::decimal(us as nat) + end,
            )
            &&& f.is_dir && f.uid == us && f.mode & 0o7777 != 0o700 ==> told == Some(
                dir + " has mode "@ + crate::text::octal4((f.mode & 0o7777) as nat)
                    + ", expected "@ + crate::text::octal4(0o700) + end,
            )
        }),
{
    let mode = f.mode;
    assert(mode & 0o7777 == mode % 4096) by (bit_vector);
}

/// A step that fails ends it, and says what failed on which name and how.
pub proof fn law_a_failed_step_says_what_failed(
    dir: Seq<char>,
    us: u32,
    e: String,
    a: DirAction,
    b: Binding,
    after: Binding,
    c: BindAction,
)
    ensures
        dir_step(dir, us, DirResult::Created(Err(e)), a) ==> (a matches DirAction::Done(Err(why))
            && why@ == "cannot create "@ + dir + ": "@ + e@),
        dir_step(dir, us, DirResult::ModeSet(Err(e)), a) ==> (a matches DirAction::Done(Err(why))
            && why@ == "cannot set the mode of "@ + dir + ": "@ + e@),
        dir_step(dir, us, DirResult::Facts(Err(e)), a) ==> (a matches DirAction::Done(Err(why))
            && why@ == "cannot stat "@ + dir + ": "@ + e@),
        b.leads_to(BindResult::NotProbed(e), after, c) ==> (c matches BindAction::Done(Err(why))
            && why@ == "control socket "@ + b.path@ + " exists but cannot be probed: "@ + e@),
        b.leads_to(BindResult::Cleared(Err(e)), after, c) ==> (c matches BindAction::Done(Err(why))
            && why@ == "cannot clear "@ + b.temporary@ + ": "@ + e@),
        b.leads_to(BindResult::Bound(Err(e)), after, c) ==> (c matches BindAction::Done(Err(why))
            && why@ == "cannot bind control socket "@ + b.temporary@ + ": "@ + e@),
{
}

/// A listener that cannot be finished is discarded, and the reason it could not
/// be is what is said in the end.
pub proof fn law_a_discarded_socket_says_why(
    b: Binding,
    r: BindResult,
    e: String,
    after: Binding,
    a: BindAction,
    last: Binding,
    z: BindAction,
)
    requires
        r == BindResult::ModeSet(Err(e)) || r == BindResult::Identity(Err(e)) || r
            == BindResult::Renamed(Err(e)),
        b.leads_to(r, after, a),
        after.leads_to(BindResult::Discarded, last, z),
    ensures
        a is Discard,
        z matches BindAction::Done(Err(why)) && why@ == "cannot install control socket "@ + b.path@
            + ": "@ + e@,
{
}

/// A socket nobody answers on is cleared, then bound, made private, looked at
/// and named, in that order, and what is said in the end is what was looked at.
pub proof fn law_a_free_socket_is_bound_step_by_step(
    b: Binding,
    b1: Binding,
    b2: Binding,
    b3: Binding,
    b4: Binding,
    b5: Binding,
    b6: Binding,
    a: Seq<BindAction>,
    id: (u64, u64),
)
    requires
        a.len() == 6,
        b.leads_to(BindResult::Free, b1, a[0]),
        b1.leads_to(BindResult::Cleared(Ok(())), b2, a[1]),
        b2.leads_to(BindResult::Bound(Ok(())), b3, a[2]),
        b3.leads_to(BindResult::ModeSet(Ok(())), b4, a[3]),
        b4.leads_to(BindResult::Identity(Ok(id)), b5, a[4]),
        b5.leads_to(BindResult::Renamed(Ok(())), b6, a[5]),
    ensures
        a[0] is Clear,
        a[1] is Bind,
        a[2] is SetMode,
        a[3] is Stat,
        a[4] is Rename,
        a[5] == BindAction::Done(Ok(id)),
        b6.path == b.path,
        b6.temporary == b.temporary,
{
}

/// A client that says nothing is left alone, as is one that cannot be read; and
/// a line is queued exactly if it spells a command.
pub proof fn law_only_commands_are_queued(us: u32, line: String, cmd: Command)
    ensures
        served(us, ServeInput::NoLine) is Hang,
        served(us, ServeInput::NotRead) is Hang,
        served(us, ServeInput::Line(line)) == ServeActionView::Queue(cmd) <==> crate::text::trimmed(
            line@,
        ) == crate::model::command_name(cmd),
{
    crate::model::law_only_command_names_parse(line@);
    crate::model::law_commands_round_trip(cmd);
    crate::model::lemma_command_words();
    let w = crate::model::command_name(cmd);
    assert(w[0] == 't' || w[0] == 's' || w[0] == 'h' || w[0] == 'n' || w[0] == 'p' || w[0] == 'q');
    crate::text::lemma_trim_keeps_a_word(w);
}

/// A client is told that nobody is there if it cannot connect, cannot send or is
/// hung up on, that there was no reply if there was none, and why it was refused
/// if it was; only `ok` is success.
pub proof fn law_only_ok_is_success(path: Seq<char>, cmd: Command, e: Exchange)
    ensures
        failure_of(path, cmd, e) is None <==> (e matches Exchange::Replied(t)
            && crate::text::trimmed(t@) == "ok"@),
        ({
            let absent = |why: Seq<char>|
                "svitek is not running ("@ + path + ": "@ + why
                    + ") — is `exec svitek` in your sway config?"@;
            &&& e matches Exchange::NotConnected(why) ==> failure_of(path, cmd, e) == Some(
                absent(why@),
            )
            &&& e matches Exchange::NotSent(why) ==> failure_of(path, cmd, e) == Some(absent(why@))
            &&& e matches Exchange::NoReply(why) ==> failure_of(path, cmd, e) == Some(
                "no reply from svitek on "@ + path + ": "@ + why@,
            )
            &&& e matches Exchange::Replied(t) ==> crate::text::trimmed(t@).len() == 0
                ==> failure_of(path, cmd, e) == Some(
                absent("the running instance closed the connection"@),
            )
        }),
{
    reveal_strlit("ok");
}

/// A refusal is passed on without the word that marks it.
pub proof fn law_a_refusal_is_passed_on(path: Seq<char>, cmd: Command, t: String, why: Seq<char>)
    requires
        crate::text::trimmed(t@) == "err "@ + why,
    ensures
        failure_of(path, cmd, Exchange::Replied(t)) == Some(
            "svitek refused `"@ + crate::model::command_name(cmd) + "`: "@ + why,
        ),
{
    reveal_strlit("err ");
    reveal_strlit("ok");
    let said = "err "@ + why;
    assert(said[0] == 'e' && "ok"@[0] == 'o');
    assert(said.take("err "@.len() as int) =~= "err "@);
    assert(said.skip("err "@.len() as int) =~= why);
}

/// What a client sends is the word of the command and one line break.
pub proof fn law_a_request_is_one_line(cmd: Command)
    ensures
        request(cmd) == crate::model::command_name(cmd) + seq!['\n'],
        forall|i: int| 0 <= i < request(cmd).len() - 1 ==> #[trigger] request(cmd)[i] != '\n',
{
    crate::model::lemma_command_words();
    let w = crate::model::command_name(cmd);
    assert(w.push('\n') =~= w + seq!['\n']);
    assert forall|i: int| 0 <= i < w.len() implies #[trigger] request(cmd)[i] != '\n' by {
        assert(request(cmd)[i] == w[i]);
        assert(w.len() == 4 || w.len() == 6);
        assert(i == 0 || i == 1 || i == 2 || i == 3 || i == 4 || i == 5);
    }
}

} // verus!
