use async_channel::{Receiver, Sender};
use std::collections::HashMap;
use svitek::cli::{invocation, Invocation, HELP};
use svitek::control::{
    cleanup, ensure_private_dir, fallback_dir, request_line, send, serve, socket_identity,
    socket_location, socket_path, temporary_path, BindAction, BindResult, Binding, Bound,
    DirAction, DirFacts, DirResult, Exchange, Found, ServeAction, ServeInput, FALLBACK_DIR_MODE,
    SOCKET_MODE,
};
use svitek::model::{Command, Msg};

const US: u32 = 1000;
const PID: u32 = 4242;
const PATH: &str = "/run/user/1000/svitek.sock";

/// What stands for the file system and the sockets in it: a name to an inode,
/// its mode, and whether somebody listens.
#[derive(Default)]
struct World {
    files: HashMap<String, (u64, u32, bool)>,
    next_inode: u64,
    /// Every mode the socket ever had under its own name.
    seen_modes: Vec<u32>,
}

impl World {
    fn temporary(&self) -> String {
        format!("{PATH}.{PID}")
    }

    /// Bind as the daemon does, one step at a time.
    fn spawn(&mut self) -> Result<(u64, u64), String> {
        let tmp = self.temporary();
        let mut binding = Binding::new(PATH.to_string(), tmp.clone());
        let mut result = match self.files.get(PATH) {
            Some((_, _, true)) => BindResult::Answered,
            _ => BindResult::Free,
        };
        loop {
            result = match binding.step(result) {
                BindAction::Clear => {
                    self.files.remove(&tmp);
                    BindResult::Cleared(Ok(()))
                }
                BindAction::Bind => {
                    self.next_inode += 1;
                    // The most permissive umask there is.
                    self.files.insert(tmp.clone(), (self.next_inode, 0o777, true));
                    BindResult::Bound(Ok(()))
                }
                BindAction::SetMode => {
                    self.files.get_mut(&tmp).unwrap().1 = SOCKET_MODE;
                    BindResult::ModeSet(Ok(()))
                }
                BindAction::Stat => BindResult::Identity(Ok((5, self.files[&tmp].0))),
                BindAction::Rename => {
                    let f = self.files.remove(&tmp).unwrap();
                    self.seen_modes.push(f.1);
                    self.files.insert(PATH.to_string(), f);
                    BindResult::Renamed(Ok(()))
                }
                BindAction::Discard => {
                    self.files.remove(&tmp);
                    BindResult::Discarded
                }
                BindAction::Done(r) => return r,
            }
        }
    }

    fn cleanup(&mut self, expect: Option<(u64, u64)>) {
        let found = match self.files.get(PATH) {
            Some((ino, _, _)) => Found::Identity(5, *ino),
            None => Found::Absent,
        };
        if cleanup(expect, found) {
            self.files.remove(PATH);
        }
    }

    fn is_there(&self) -> bool {
        self.files.contains_key(PATH)
    }
}

/// One connection, as the daemon serves it: what is answered, and whether it
/// goes on serving.
fn connection(peer: u32, line: &str, tx: &Sender<Msg>) -> (String, bool) {
    let mut input = ServeInput::Peer(Some(peer));
    loop {
        input = match serve(US, input) {
            ServeAction::ReadLine => {
                if line.is_empty() {
                    ServeInput::NoLine
                } else {
                    ServeInput::Line(line.to_string())
                }
            }
            ServeAction::Queue(cmd) => {
                ServeInput::Queued(tx.send_blocking(Msg::Control(cmd)).is_ok())
            }
            ServeAction::Hang => return (String::new(), true),
            ServeAction::Reply { text, stop } => return (text, !stop),
        }
    }
}

fn send_at(world: &World, cmd: Command, tx: &Sender<Msg>) -> Result<(), String> {
    let exchange = match world.files.get(PATH) {
        Some((_, _, true)) => Exchange::Replied(connection(US, &request_line(cmd), tx).0),
        Some(_) => Exchange::NotConnected("Connection refused".to_string()),
        None => Exchange::NotConnected("No such file or directory".to_string()),
    };
    send(PATH, cmd, exchange)
}

fn daemon() -> (World, (u64, u64), Sender<Msg>, Receiver<Msg>) {
    let mut world = World::default();
    let id = world.spawn().expect("bind");
    let (tx, rx) = async_channel::unbounded();
    (world, id, tx, rx)
}

#[test]
fn round_trip() {
    let (mut world, _id, tx, rx) = daemon();

    send_at(&world, Command::Toggle, &tx).expect("toggle accepted");
    assert!(matches!(rx.recv_blocking().unwrap(), Msg::Control(Command::Toggle)));

    send_at(&world, Command::Quit, &tx).expect("quit accepted");
    assert!(matches!(rx.recv_blocking().unwrap(), Msg::Control(Command::Quit)));

    world.cleanup(None);
    assert!(!world.is_there());
}

/// `ok` means the command is already queued: the moment `send` returns, the
/// message must be readable without waiting for anything.
#[test]
fn ok_means_the_command_is_already_queued() {
    let (world, _id, tx, rx) = daemon();
    for _ in 0..20 {
        send_at(&world, Command::Toggle, &tx).expect("toggle accepted");
        match rx.try_recv() {
            Ok(Msg::Control(Command::Toggle)) => {}
            other => panic!("reply arrived before the command was queued: {other:?}"),
        }
    }
}

/// With the main loop gone there is nothing to queue to, and the client is told
/// so instead of being promised an action nobody will take.
#[test]
fn a_closed_main_loop_is_reported_as_an_error() {
    let (world, _id, tx, rx) = daemon();
    drop(rx);
    let err = send_at(&world, Command::Toggle, &tx).unwrap_err();
    assert!(err.contains("shutting down"), "{err}");
    assert_eq!(err, "svitek refused `toggle`: svitek is shutting down");
    assert!(!connection(US, "toggle\n", &tx).1, "serving ends with the main loop");
}

#[test]
fn send_without_daemon_explains_itself() {
    let (tx, _rx) = async_channel::unbounded();
    let err = send_at(&World::default(), Command::Toggle, &tx).unwrap_err();
    assert!(err.contains("not running"), "{err}");
    assert!(err.contains("exec svitek"), "{err}");
    assert_eq!(
        err,
        "svitek is not running (/run/user/1000/svitek.sock: No such file or directory) — is \
         `exec svitek` in your sway config?"
    );
}

#[test]
fn stale_socket_is_recovered() {
    let mut world = World::default();
    // A socket file nobody listens on.
    world.files.insert(PATH.to_string(), (77, 0o755, false));
    assert!(world.is_there());

    world.spawn().expect("stale socket should be replaced");
    let (tx, rx) = async_channel::unbounded();
    send_at(&world, Command::Show, &tx).expect("show accepted");
    assert!(matches!(rx.recv_blocking().unwrap(), Msg::Control(Command::Show)));
}

#[test]
fn unknown_command_is_rejected() {
    let (world, _id, tx, rx) = daemon();
    let (reply, goes_on) = connection(US, "explode\n", &tx);
    assert_eq!(reply, "err unknown command\n");
    assert!(rx.is_empty(), "no Msg for an unknown command");
    assert!(goes_on);

    // The listener survives a bad client.
    send_at(&world, Command::Hide, &tx).expect("still serving");
    assert!(matches!(rx.recv_blocking().unwrap(), Msg::Control(Command::Hide)));
    assert_eq!(
        send(PATH, Command::Show, Exchange::Replied(reply)).unwrap_err(),
        "svitek refused `show`: unknown command"
    );
}

#[test]
fn second_instance_refuses_to_start() {
    let (mut world, id, _tx, _rx) = daemon();
    let err = world.spawn().unwrap_err();
    assert_eq!(err, "svitek is already running");
    // The first one is left alone.
    assert_eq!((5, world.files[PATH].0), id);
}

/// Anyone who can write a line to this socket owns the user's workspaces, so it
/// is 0600 the moment it is visible at its real name.
#[test]
fn the_socket_is_private_and_leaves_no_temporary_behind() {
    let (mut world, id, tx, _rx) = daemon();
    assert_eq!(world.seen_modes, vec![SOCKET_MODE]);
    assert_eq!(world.files[PATH].1 & 0o777, SOCKET_MODE);
    assert_eq!((5, world.files[PATH].0), id);
    assert!(!world.files.contains_key(&world.temporary()));

    // Still a working socket, permissions and all.
    send_at(&world, Command::Toggle, &tx).expect("toggle accepted");
    world.cleanup(Some(id));
    assert!(!world.is_there());
}

/// `svitek quit; svitek` can put a successor on the path before our exit handler
/// runs. Unlinking by path alone would leave the new daemon listening on a
/// socket no client can find.
#[test]
fn cleanup_spares_a_successors_socket() {
    let (mut world, first, tx, _rx) = daemon();

    // The successor: same path, a different inode.
    world.files.remove(PATH);
    let second = world.spawn().expect("the successor binds");
    assert_ne!(first, second);

    world.cleanup(Some(first));
    assert!(world.is_there(), "the successor's socket was unlinked");
    send_at(&world, Command::Toggle, &tx).expect("the successor is still reachable");

    world.cleanup(Some(second));
    assert!(!world.is_there(), "the owner's own cleanup must still work");
    assert!(!cleanup(Some(second), Found::Absent));
    assert!(!cleanup(Some(second), Found::Unknown));
    assert!(cleanup(None, Found::Unknown));
}

/// Walk through the making of a private directory. `found` is what is there, if
/// anything; the second of the pair is whether its mode was changed.
fn private_dir(found: Option<DirFacts>) -> (Result<(), String>, bool) {
    let mut facts = found;
    let mut changed = false;
    let mut result = DirResult::Created(Ok(found.is_none()));
    loop {
        result = match ensure_private_dir("/tmp/svitek-1000", US, result) {
            DirAction::SetMode => {
                changed = true;
                facts = Some(DirFacts { is_dir: true, uid: US, mode: 0o040700 });
                DirResult::ModeSet(Ok(()))
            }
            DirAction::Stat => DirResult::Facts(Ok(facts.unwrap())),
            DirAction::Done(r) => return (r, changed),
        }
    }
}

/// The `/tmp` fallback is only usable inside a directory that is a real
/// directory, ours, and 0700. Everything else is somebody else's ground.
#[test]
fn the_fallback_directory_must_be_private() {
    // Created by us: made 0700 whatever the umask, and accepted again on the
    // next start (the daemon adopts its own directory).
    assert_eq!(private_dir(None), (Ok(()), true));
    let ours = DirFacts { is_dir: true, uid: US, mode: 0o040000 | FALLBACK_DIR_MODE };
    assert_eq!(private_dir(Some(ours)), (Ok(()), false));

    // Too open: refused rather than quietly chmodded, because we did not make
    // it and cannot know who has been in it.
    let (r, changed) = private_dir(Some(DirFacts { mode: 0o040755, ..ours }));
    let err = r.unwrap_err();
    assert!(err.contains("mode 0755"), "{err}");
    assert_eq!(
        err,
        "/tmp/svitek-1000 has mode 0755, expected 0700; refusing to put the control socket there"
    );
    assert!(!changed);
    // A sticky bit is not nothing.
    let sticky = private_dir(Some(DirFacts { mode: 0o041700, ..ours })).0.unwrap_err();
    assert!(sticky.contains("mode 1700"), "{sticky}");

    // A symlink or a plain file in the way.
    let err = private_dir(Some(DirFacts { is_dir: false, ..ours })).0.unwrap_err();
    assert!(err.contains("not a directory"), "{err}");

    // Somebody else's.
    assert_eq!(
        private_dir(Some(DirFacts { uid: 1001, ..ours })).0.unwrap_err(),
        "/tmp/svitek-1000 is owned by uid 1001, not 1000; refusing to put the control socket there"
    );
}

#[test]
fn errors_on_the_way_to_a_private_directory_are_named() {
    let step = |r| ensure_private_dir("/tmp/d", US, r);
    let err = || "denied".to_string();
    assert_eq!(
        step(DirResult::Created(Err(err()))),
        DirAction::Done(Err("cannot create /tmp/d: denied".to_string()))
    );
    assert_eq!(
        step(DirResult::ModeSet(Err(err()))),
        DirAction::Done(Err("cannot set the mode of /tmp/d: denied".to_string()))
    );
    assert_eq!(
        step(DirResult::Facts(Err(err()))),
        DirAction::Done(Err("cannot stat /tmp/d: denied".to_string()))
    );
}

/// Our own peer is served, anybody else is not even listened to.
#[test]
fn the_peer_is_us() {
    let (_world, _id, tx, rx) = daemon();
    assert_eq!(connection(US, "show\n", &tx), ("ok\n".to_string(), true));
    assert!(!rx.is_empty());
    rx.recv_blocking().unwrap();
    assert_eq!(connection(US + 1, "quit\n", &tx), (String::new(), true));
    assert_eq!(serve(US, ServeInput::Peer(None)), ServeAction::Hang);
    assert!(rx.is_empty());
}

#[test]
fn a_connection_that_says_nothing_is_dropped() {
    let (_world, _id, tx, _rx) = daemon();
    assert_eq!(connection(US, "", &tx), (String::new(), true));
    assert_eq!(serve(US, ServeInput::NotRead), ServeAction::Hang);
}

#[test]
fn every_failure_to_bind_is_named_and_leaves_nothing() {
    let err = || "denied".to_string();
    let fresh = || Binding::new("/s".to_string(), "/s.1".to_string());
    let refusal = |text: &str| BindAction::Done(Err(text.to_string()));
    assert_eq!(
        fresh().step(BindResult::NotProbed(err())),
        refusal("control socket /s exists but cannot be probed: denied")
    );
    assert_eq!(
        fresh().step(BindResult::Cleared(Err(err()))),
        refusal("cannot clear /s.1: denied")
    );
    assert_eq!(
        fresh().step(BindResult::Bound(Err(err()))),
        refusal("cannot bind control socket /s.1: denied")
    );
    for late in [
        BindResult::ModeSet(Err(err())),
        BindResult::Identity(Err(err())),
    ] {
        let mut b = fresh();
        assert_eq!(b.step(late), BindAction::Discard);
        assert_eq!(
            b.step(BindResult::Discarded),
            refusal("cannot install control socket /s: denied")
        );
    }
    let mut b = fresh();
    assert_eq!(b.step(BindResult::Identity(Ok((1, 2)))), BindAction::Rename);
    assert_eq!(b.step(BindResult::Renamed(Err(err()))), BindAction::Discard);
    assert_eq!(
        b.step(BindResult::Discarded),
        refusal("cannot install control socket /s: denied")
    );
}

#[test]
fn the_client_tells_its_failures_apart() {
    let why = || "reset".to_string();
    let not_running = "svitek is not running (/s: reset) — is `exec svitek` in your sway config?";
    assert_eq!(send("/s", Command::Next, Exchange::NotSent(why())).unwrap_err(), not_running);
    assert_eq!(
        send("/s", Command::Next, Exchange::NoReply(why())).unwrap_err(),
        "no reply from svitek on /s: reset"
    );
    assert_eq!(
        send("/s", Command::Next, Exchange::Replied(" \n".to_string())).unwrap_err(),
        "svitek is not running (/s: the running instance closed the connection) — is \
         `exec svitek` in your sway config?"
    );
    // A refusal without the usual word is passed on whole.
    assert_eq!(
        send("/s", Command::Next, Exchange::Replied("no\n".to_string())).unwrap_err(),
        "svitek refused `next`: no"
    );
    assert_eq!(request_line(Command::Prev), "prev\n");
}

#[test]
fn the_socket_goes_where_the_environment_says() {
    let bytes = |s: &str| Some(s.as_bytes().to_vec());
    let (path, dir) = socket_location(&bytes("/tmp/mine"), &bytes("/run/user/1000"), US);
    assert_eq!((path.as_slice(), dir), (b"/tmp/mine".as_slice(), None));
    // An empty variable is one that is not set.
    let (path, dir) = socket_location(&bytes(""), &bytes("/run/user/1000"), US);
    assert_eq!((path.as_slice(), dir), (b"/run/user/1000/svitek.sock".as_slice(), None));
    let (path, dir) = socket_location(&None, &bytes(""), US);
    assert_eq!(path, b"/tmp/svitek-1000/svitek.sock");
    assert_eq!(dir, Some(b"/tmp/svitek-1000".to_vec()));
    assert_eq!(fallback_dir(0), b"/tmp/svitek-0");
    assert_eq!(socket_path(&None, &bytes("/run/"), US), b"/run/svitek.sock");
    assert_eq!(temporary_path(&PATH.as_bytes().to_vec(), PID), format!("{PATH}.{PID}").into_bytes());
}

#[test]
fn the_first_socket_bound_is_the_one_that_counts() {
    let mut bound = Bound::new();
    assert_eq!(socket_identity(&bound), None);
    bound.set((5, 1));
    bound.set((5, 2));
    assert_eq!(socket_identity(&bound), Some((5, 1)));
}

#[test]
fn the_command_line_is_read() {
    let args = |list: &[&str]| list.iter().map(|s| s.to_string()).collect::<Vec<_>>();
    assert_eq!(invocation(&args(&[])), Invocation::Daemon);
    assert_eq!(invocation(&args(&["-h"])), Invocation::Help);
    assert_eq!(invocation(&args(&["--help"])), Invocation::Help);
    assert_eq!(invocation(&args(&["-V"])), Invocation::Version);
    assert_eq!(invocation(&args(&["--version"])), Invocation::Version);
    assert_eq!(invocation(&args(&["toggle"])), Invocation::Send(Command::Toggle));
    assert_eq!(invocation(&args(&["prev"])), Invocation::Send(Command::Prev));
    assert_eq!(invocation(&args(&["explode"])), Invocation::Unknown("explode".to_string()));
    assert_eq!(invocation(&args(&["show", "it"])), Invocation::TooManyArguments);
    assert!(HELP.starts_with("svitek — a Sway workspace switcher panel\n\nusage:\n"));
    assert!(HELP.ends_with("$XDG_RUNTIME_DIR/svitek.sock)"));
}
