//! The command line of `svitek`.

use crate::model::Command;
use crate::text::same_text;
use vstd::prelude::*;

verus! {

/// What `svitek --help` prints.
pub const HELP: &'static str = "svitek — a Sway workspace switcher panel

usage:
  svitek              run the panel daemon (put `exec svitek` in your sway config)
  svitek toggle       show the panel, or hide it if it is up (bind this to a key)
  svitek show         show the panel
  svitek hide         hide the panel
  svitek next         show the panel, or step the selection one workspace on
  svitek prev         the same, one workspace back (bind it to Mod+Shift+Tab)
  svitek quit         stop the running daemon
  svitek --help       this text
  svitek --version    print the version

environment:
  RUST_LOG            log level of the daemon, e.g. RUST_LOG=svitek=debug
  SVITEK_SOCKET       control socket path (default $XDG_RUNTIME_DIR/svitek.sock)";

/// What a command line asks for.
#[derive(Debug, PartialEq, Eq)]
pub enum Invocation {
    /// Run the resident panel.
    Daemon,
    Help,
    Version,
    /// Tell the running instance.
    Send(Command),
    Unknown(String),
    TooManyArguments,
}

/// Whether `args`, the program left out, ask for `r`.
pub open spec fn asks_for(args: Seq<String>, r: Invocation) -> bool {
    if args.len() == 0 {
        r is Daemon
    } else if args.len() > 1 {
        r is TooManyArguments
    } else {
        let arg = args[0]@;
        if arg == "-h"@ || arg == "--help"@ {
            r is Help
        } else if arg == "--version"@ || arg == "-V"@ {
            r is Version
        } else {
            match crate::model::command_named(crate::text::trimmed(arg)) {
                Some(c) => r == Invocation::Send(c),
                None => r matches Invocation::Unknown(word) && word@ == arg,
            }
        }
    }
}

/// What a command line asks for, the program left out.
pub fn invocation(args: &Vec<String>) -> (r: Invocation)
    ensures
        asks_for(args@, r),
{
    if args.len() == 0 {
        return Invocation::Daemon;
    }
    if args.len() > 1 {
        return Invocation::TooManyArguments;
    }
    let arg = &args[0];
    if same_text(arg, "-h") || same_text(arg, "--help") {
        return Invocation::Help;
    }
    if same_text(arg, "--version") || same_text(arg, "-V") {
        return Invocation::Version;
    }
    match Command::parse(arg) {
        Some(c) => Invocation::Send(c),
        None => Invocation::Unknown(arg.clone()),
    }
}

// -------------------------------------------------------------------- laws --

/// No argument is the daemon; one is help, the version or a command, or nothing
/// that is known; more are too many. Each is asked for by that and nothing else.
pub proof fn law_every_command_line_asks_for_one_thing(args: Seq<String>, c: Command)
    ensures
        asks_for(args, Invocation::Daemon) <==> args.len() == 0,
        asks_for(args, Invocation::TooManyArguments) <==> args.len() > 1,
        asks_for(args, Invocation::Help) <==> args.len() == 1 && (args[0]@ == "-h"@ || args[0]@
            == "--help"@),
        asks_for(args, Invocation::Version) <==> args.len() == 1 && (args[0]@ == "-V"@ || args[0]@
            == "--version"@),
        args.len() == 1 && args[0]@ == crate::model::command_name(c) ==> asks_for(
            args,
            Invocation::Send(c),
        ),
        asks_for(args, Invocation::Send(c)) ==> args.len() == 1 && crate::text::trimmed(args[0]@)
            == crate::model::command_name(c),
{
    reveal_strlit("-h");
    reveal_strlit("--help");
    reveal_strlit("-V");
    reveal_strlit("--version");
    assert("-h"@.len() == 2 && "-V"@.len() == 2 && "-h"@[1] == 'h' && "-V"@[1] == 'V');
    assert("--help"@.len() == 6 && "--version"@.len() == 9);
    crate::model::law_commands_round_trip(c);
    crate::model::lemma_command_words();
    assert("-h"@[0] == '-' && "--help"@[0] == '-' && "-V"@[0] == '-' && "--version"@[0] == '-');
    assert(crate::model::command_name(c)[0] != '-');
    if args.len() == 1 {
        crate::model::law_only_command_names_parse(args[0]@);
    }
}

/// What is not known is named as it was given.
pub proof fn law_unknown_words_are_named(args: Seq<String>, r: Invocation)
    requires
        asks_for(args, r),
        r is Unknown,
    ensures
        args.len() == 1,
        r matches Invocation::Unknown(word) && word@ == args[0]@,
        forall|c: Command| crate::text::trimmed(args[0]@) != #[trigger] crate::model::command_name(c),
{
    crate::model::law_only_command_names_parse(args[0]@);
}

} // verus!
