//! Commands for sway: how a workspace switch is worded, and how one command
//! at a time is run over a connection that is kept open.

use crate::text::{chars_of, signed_decimal_text};
use vstd::prelude::*;

verus! {

// ----------------------------------------------------------------- wording --

/// The characters sway's command parser treats specially inside a
/// double-quoted argument.
pub open spec fn is_special(c: char) -> bool {
    c == '"' || c == '\\'
}

/// `s` with a backslash before every special character.
pub open spec fn escaped(s: Seq<char>) -> Seq<char>
    decreases s.len(),
{
    if s.len() == 0 {
        seq![]
    } else if is_special(s.last()) {
        escaped(s.drop_last()).push('\\').push(s.last())
    } else {
        escaped(s.drop_last()).push(s.last())
    }
}

/// Backslash-escape what sway's command parser treats specially inside a
/// double-quoted argument, which keeps the command well-formed. Names with
/// spaces, colons and non-ASCII come through unchanged.
pub fn escape_for_sway(s: &str) -> (r: String)
    ensures
        r@ == escaped(s@),
{
    let v = chars_of(s);
    let mut out = String::new();
    for i in 0..v.len()
        invariant
            v@ == s@,
            out@ == escaped(v@.take(i as int)),
    {
        assert(v@.take(i + 1).drop_last() =~= v@.take(i as int));
        if v[i] == '"' || v[i] == '\\' {
            out.push('\\');
        }
        out.push(v[i]);
    }
    assert(v@.take(v@.len() as int) =~= v@);
    out
}

/// The sway command that switches to workspace `name`, by its number if it has
/// one.
pub open spec fn switch_command(name: Seq<char>, num: Option<i32>) -> Seq<char> {
    match num {
        Some(n) => "workspace number "@ + crate::text::signed_decimal(n as int),
        None => "workspace --no-auto-back-and-forth \""@ + escaped(name) + "\""@,
    }
}

/// The command that switches to workspace `name` exactly like `swaymsg
/// workspace <name>` would: numbered workspaces via `workspace number N`,
/// others via a quoted name. Moves focus to another output if the workspace
/// lives there.
pub fn switch_to(name: &str, num: Option<i32>) -> (r: String)
    ensures
        r@ == switch_command(name@, num),
{
    match num {
        Some(n) => {
            let mut cmd = "workspace number ".to_owned();
            cmd.append(&signed_decimal_text(n));
            cmd
        },
        None => {
            let mut cmd = "workspace --no-auto-back-and-forth \"".to_owned();
            cmd.append(&escape_for_sway(name));
            cmd.append("\"");
            cmd
        },
    }
}

/// The command that moves the cursor one pixel right and back. Sway only
/// recomputes which surface is under the pointer when the pointer moves. The
/// net movement is zero.
pub fn nudge_pointer() -> (r: String)
    ensures
        r@ == "seat - cursor move 1 0; seat - cursor move -1 0"@,
{
    "seat - cursor move 1 0; seat - cursor move -1 0".to_owned()
}

// -------------------------------------------------------------- connection --

/// What sway said to one command: for every part of it, the refusal if it was
/// refused. `Err` means that the connection itself failed.
pub type Answer = Result<Vec<Option<String>>, String>;

/// What to do next to get a command run.
#[derive(Debug, PartialEq, Eq)]
pub enum LinkStep {
    /// Send the command on the connection that is open.
    SendOnOpen,
    /// Throw the open connection away, if there is one, and open a new one.
    Connect,
    /// Send the command on the connection just opened.
    SendOnNew,
    /// The command has been run, or cannot be.
    Finished(Result<(), String>),
}

/// The first refusal among the outcomes, in sway's words.
pub open spec fn first_refusal(outcomes: Seq<Option<String>>) -> Option<Option<String>> {
    crate::lists::first(outcomes, |o: Option<String>| o is Some)
}

/// A command is accepted when no part of it was refused; otherwise the first
/// refusal is the answer.
pub open spec fn verdict(outcomes: Seq<Option<String>>) -> Result<(), String> {
    match first_refusal(outcomes) {
        Some(Some(e)) => Err(e),
        _ => Ok(()),
    }
}

fn settle(outcomes: Vec<Option<String>>) -> (r: Result<(), String>)
    ensures
        r == verdict(outcomes@),
{
    let ghost p = |o: Option<String>| o is Some;
    for i in 0..outcomes.len()
        invariant
            p == (|o: Option<String>| o is Some),
            forall|j: int| 0 <= j < i ==> !p(#[trigger] outcomes@[j]),
    {
        if let Some(e) = &outcomes[i] {
            proof {
                crate::lists::lemma_position_is(outcomes@, p, i as int);
            }
            return Err(e.clone());
        }
    }
    proof {
        crate::lists::lemma_position_none(outcomes@, p);
    }
    Ok(())
}

/// The connection commands are run on: opened on first use, kept open, and
/// replaced once when it turns out to have been closed meanwhile.
#[derive(Debug, PartialEq, Eq)]
pub struct CommandLink {
    /// Whether a connection is being kept.
    pub open: bool,
}

impl CommandLink {
    /// No connection yet.
    pub fn new() -> (r: CommandLink)
        ensures
            !r.open,
    {
        CommandLink { open: false }
    }

    /// A command is to be run.
    pub fn begin(&self) -> (r: LinkStep)
        ensures
            self.open ==> r == LinkStep::SendOnOpen,
            !self.open ==> r == LinkStep::Connect,
    {
        if self.open {
            LinkStep::SendOnOpen
        } else {
            LinkStep::Connect
        }
    }

    /// What came back on the connection that was open. A connection that
    /// failed was closed since the last command; the one retry is on a brand
    /// new one.
    pub fn answered_on_open(&mut self, answer: Answer) -> (r: LinkStep)
        ensures
            answer matches Ok(outcomes) ==> r == LinkStep::Finished(verdict(outcomes@))
                && final(self).open == old(self).open,
            answer is Err ==> r == LinkStep::Connect && !final(self).open,
    {
        match answer {
            Ok(outcomes) => LinkStep::Finished(settle(outcomes)),
            Err(_) => {
                self.open = false;
                LinkStep::Connect
            },
        }
    }

    /// Whether a new connection could be opened.
    pub fn connected(&self, outcome: Result<(), String>) -> (r: LinkStep)
        ensures
            outcome is Ok ==> r == LinkStep::SendOnNew,
            outcome matches Err(e) ==> r == LinkStep::Finished(Err(e)),
    {
        match outcome {
            Ok(()) => LinkStep::SendOnNew,
            Err(e) => LinkStep::Finished(Err(e)),
        }
    }

    /// What came back on a new connection. It is kept if it worked, even when
    /// sway refused the command: that says nothing about the connection.
    pub fn answered_on_new(&mut self, answer: Answer) -> (r: LinkStep)
        ensures
            answer matches Ok(outcomes) ==> r == LinkStep::Finished(verdict(outcomes@)) && final(self).open,
            answer matches Err(e) ==> r == LinkStep::Finished(Err(e)) && final(self).open == old(self).open,
    {
        match answer {
            Ok(outcomes) => {
                self.open = true;
                LinkStep::Finished(settle(outcomes))
            },
            Err(e) => LinkStep::Finished(Err(e)),
        }
    }
}

// -------------------------------------------------------------------- laws --

/// A name without quotes or backslashes comes through exactly as it is.
pub proof fn law_plain_names_are_unchanged(s: Seq<char>)
    requires
        forall|i: int| 0 <= i < s.len() ==> !is_special(#[trigger] s[i]),
    ensures
        escaped(s) == s,
    decreases s.len(),
{
    if s.len() > 0 {
        law_plain_names_are_unchanged(s.drop_last());
        assert(s.drop_last().push(s.last()) =~= s);
        assert(!is_special(s[s.len() - 1]));
    } else {
        assert(s =~= seq![]);
    }
}

/// Scanning an escaped text as sway does, a backslash taking the character
/// after it along: whether `n` characters in we stand between two such units.
pub open spec fn between_units(s: Seq<char>, n: int) -> bool
    decreases n,
{
    if n <= 0 {
        n == 0
    } else {
        // A lone plain character, or a backslash and what it escapes.
        ||| !is_special(s[n - 1]) && between_units(s, n - 1)
        ||| n >= 2 && s[n - 2] == '\\' && is_special(s[n - 1]) && between_units(s, n - 2)
    }
}

proof fn lemma_units_of_a_prefix(s: Seq<char>, t: Seq<char>, n: int)
    requires
        n <= s.len(),
        n <= t.len(),
        forall|i: int| 0 <= i < n ==> s[i] == t[i],
    ensures
        between_units(s, n) == between_units(t, n),
    decreases n,
{
    if n > 0 {
        lemma_units_of_a_prefix(s, t, n - 1);
        if n >= 2 {
            lemma_units_of_a_prefix(s, t, n - 2);
        }
    }
}

/// Escaping keeps the quoted argument closed: every quote and every backslash
/// in it is escaped, so none can end the argument early.
pub proof fn law_an_escaped_name_stays_inside_its_quotes(s: Seq<char>)
    ensures
        between_units(escaped(s), escaped(s).len() as int),
    decreases s.len(),
{
    if s.len() > 0 {
        let before = escaped(s.drop_last());
        law_an_escaped_name_stays_inside_its_quotes(s.drop_last());
        lemma_units_of_a_prefix(before, escaped(s), before.len() as int);
    }
}

/// Nothing is lost in escaping: two names that differ are still different.
pub proof fn law_escaping_keeps_names_apart(a: Seq<char>, b: Seq<char>)
    requires
        escaped(a) == escaped(b),
    ensures
        a == b,
    decreases a.len() + b.len(),
{
    if a.len() == 0 || b.len() == 0 {
        assert(a.len() > 0 ==> escaped(a).len() > 0);
        assert(b.len() > 0 ==> escaped(b).len() > 0);
        assert(a =~= b);
    } else {
        let x = escaped(a);
        let y = escaped(b);
        assert(x.last() == a.last() && y.last() == b.last());
        let pa = a.drop_last();
        let pb = b.drop_last();
        if is_special(a.last()) {
            assert(x.drop_last().drop_last() =~= escaped(pa));
            assert(y.drop_last().drop_last() =~= escaped(pb));
        } else {
            assert(x.drop_last() =~= escaped(pa));
            assert(y.drop_last() =~= escaped(pb));
        }
        law_escaping_keeps_names_apart(pa, pb);
        assert(a =~= pa.push(a.last()));
        assert(b =~= pb.push(b.last()));
    }
}

/// A text is escaped character by character: a quote and a backslash get a
/// backslash before them, anything else stays as it is.
pub proof fn law_characters_are_escaped_one_by_one(a: Seq<char>, b: Seq<char>, c: char)
    ensures
        escaped(a + b) == escaped(a) + escaped(b),
        escaped(seq![c]) == if c == '"' || c == '\\' {
            seq!['\\', c]
        } else {
            seq![c]
        },
    decreases b.len(),
{
    reveal_with_fuel(escaped, 2);
    assert(seq![c].drop_last() =~= seq![]);
    assert(escaped(seq![c]) =~= if c == '"' || c == '\\' {
        seq!['\\', c]
    } else {
        seq![c]
    });
    if b.len() == 0 {
        assert(a + b =~= a);
        assert(escaped(a) + escaped(b) =~= escaped(a));
    } else {
        assert((a + b).drop_last() =~= a + b.drop_last());
        law_characters_are_escaped_one_by_one(a, b.drop_last(), c);
        assert(escaped(a + b) =~= escaped(a) + escaped(b));
    }
}

/// A numbered workspace is switched to by its number, whatever it is called;
/// one without by its name, in quotes, and never back and forth.
pub proof fn law_numbered_workspaces_go_by_their_number(
    name: Seq<char>,
    other: Seq<char>,
    n: i32,
)
    ensures
        ({
            let by_number = switch_command(name, Some(n));
            let by_name = switch_command(name, None);
            &&& by_number == switch_command(other, Some(n))
            &&& by_number == "workspace number "@ + crate::text::signed_decimal(n as int)
            &&& by_name == "workspace --no-auto-back-and-forth "@ + seq!['"'] + escaped(name)
                + seq!['"']
        }),
{
    reveal_strlit("workspace --no-auto-back-and-forth \"");
    reveal_strlit("workspace --no-auto-back-and-forth ");
    reveal_strlit("\"");
    assert("workspace --no-auto-back-and-forth \""@ =~= "workspace --no-auto-back-and-forth "@
        + seq!['"']);
    assert("\""@ =~= seq!['"']);
}

/// A command is accepted exactly if no part of it was refused; else the first
/// refusal is told.
pub proof fn law_the_first_refusal_is_told(outcomes: Seq<Option<String>>, k: int)
    ensures
        verdict(outcomes) is Ok <==> forall|j: int|
            0 <= j < outcomes.len() ==> (#[trigger] outcomes[j]) is None,
        0 <= k < outcomes.len() && outcomes[k] is Some && (forall|j: int|
            0 <= j < k ==> (#[trigger] outcomes[j]) is None) ==> verdict(outcomes) == Err::<(), String>(
            outcomes[k]->0,
        ),
{
    let p = |o: Option<String>| o is Some;
    crate::lists::lemma_position(outcomes, p);
    if 0 <= k < outcomes.len() && p(outcomes[k]) && (forall|j: int|
        0 <= j < k ==> (#[trigger] outcomes[j]) is None) {
        crate::lists::lemma_position_is(outcomes, p, k);
    }
}

} // verus!
