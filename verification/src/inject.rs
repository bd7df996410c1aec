//! The input injector of the headless test setup: what its command line asks
//! for, what is wrong with it, and what the virtual devices do about it.

use crate::text::{chars_of, same_text, text_of};
use vstd::prelude::*;

verus! {

/// What `inject` can do.
#[derive(Debug, Clone, Copy, PartialEq, Eq, Structural)]
pub enum Subcommand {
    Pointer,
    Scroll,
    Key,
    Hold,
}

/// What is wrong with a command line.
#[derive(Debug, PartialEq, Eq)]
pub enum Complaint {
    NoSubcommand,
    UnknownSubcommand(String),
    /// Positional arguments, needed and given.
    TooFew { needed: usize, given: usize },
    /// The argument that is called `what` is no number.
    NotANumber { what: String, got: String },
    UnknownAction(String),
}

// ----------------------------------------------------------------- numbers --

pub open spec fn is_digit(c: char) -> bool {
    '0' <= c && c <= '9'
}

/// Digits, and at least one.
pub open spec fn is_numeral(s: Seq<char>) -> bool {
    s.len() > 0 && forall|i: int| 0 <= i < s.len() ==> is_digit(#[trigger] s[i])
}

/// The number that digits stand for.
pub open spec fn value_of(s: Seq<char>) -> nat
    decreases s.len(),
{
    if s.len() == 0 {
        0
    } else {
        value_of(s.drop_last()) * 10 + (s.last() as int - '0' as int) as nat
    }
}

/// The digits behind an optional `+`.
pub open spec fn without_plus(s: Seq<char>) -> Seq<char> {
    if s.len() > 0 && s[0] == '+' {
        s.skip(1)
    } else {
        s
    }
}

/// The number that `s` stands for, if it stands for one of at most `max`.
pub open spec fn unsigned(s: Seq<char>, max: nat) -> Option<nat> {
    let digits = without_plus(s);
    if is_numeral(digits) && value_of(digits) <= max {
        Some(value_of(digits))
    } else {
        None
    }
}

/// The number that `s` stands for, if it stands for one of 32 bits with a sign.
pub open spec fn signed(s: Seq<char>) -> Option<int> {
    if s.len() > 0 && s[0] == '-' {
        let digits = s.skip(1);
        if is_numeral(digits) && -(value_of(digits) as int) >= i32::MIN {
            Some(-(value_of(digits) as int))
        } else {
            None
        }
    } else {
        match unsigned(s, i32::MAX as nat) {
            Some(n) => Some(n as int),
            None => None,
        }
    }
}

proof fn lemma_value_grows(s: Seq<char>, n: int)
    requires
        0 <= n <= s.len(),
        is_numeral(s),
    ensures
        value_of(s.take(n)) <= value_of(s),
    decreases s.len(),
{
    if n < s.len() {
        let init = s.drop_last();
        assert(is_digit(s[s.len() - 1]));
        if init.len() > 0 {
            assert forall|i: int| 0 <= i < init.len() implies is_digit(#[trigger] init[i]) by {
                assert(is_digit(s[i]));
            }
            lemma_value_grows(init, n);
        }
        assert(init.take(n) =~= s.take(n));
    } else {
        assert(s.take(n) =~= s);
    }
}

fn digit_value(c: char) -> (r: u64)
    requires
        is_digit(c),
    ensures
        r == c as int - '0' as int,
{
    (c as u32 - '0' as u32) as u64
}

/// The number the characters from `from` on stand for, if they are digits that
/// stand for one of at most `max`.
fn read_digits(v: &Vec<char>, from: usize, max: u64) -> (r: Option<u64>)
    requires
        from <= v@.len(),
    ensures
        ({
            let digits = v@.skip(from as int);
            match r {
                Some(n) => is_numeral(digits) && value_of(digits) == n && n <= max,
                None => !is_numeral(digits) || value_of(digits) > max,
            }
        }),
{
    let ghost digits = v@.skip(from as int);
    if from == v.len() {
        return None;
    }
    let mut n: u64 = 0;
    for i in from..v.len()
        invariant
            from <= v@.len(),
            digits == v@.skip(from as int),
            n == value_of(digits.take(i - from)),
            n <= max,
            forall|k: int| 0 <= k < i - from ==> is_digit(#[trigger] digits[k]),
    {
        let c = v[i];
        let ghost k = i - from;
        assert(digits[k] == c);
        if !('0' <= c && c <= '9') {
            assert(!is_digit(digits[k]));
            return None;
        }
        assert(digits.take(k + 1).drop_last() =~= digits.take(k));
        let d: u64 = digit_value(c);
        let next: u128 = n as u128 * 10 + d as u128;
        assert(next == value_of(digits.take(k + 1)));
        if next > max as u128 {
            proof {
                if is_numeral(digits) {
                    lemma_value_grows(digits, k + 1);
                }
            }
            return None;
        }
        n = next as u64;
    }
    assert(digits.take(digits.len() as int) =~= digits);
    Some(n)
}

fn unsigned_number(s: &str, max: u64) -> (r: Option<u64>)
    ensures
        (match r {
            Some(n) => Some(n as nat),
            None => None,
        }) == unsigned(s@, max as nat),
{
    let v = chars_of(s);
    let from: usize = if v.len() > 0 && v[0] == '+' {
        1
    } else {
        0
    };
    assert(v@.skip(0) =~= v@);
    read_digits(&v, from, max)
}

/// A `u32` written as a numeral.
pub fn parse_u32(s: &str) -> (r: Option<u32>)
    ensures
        (match r {
            Some(n) => Some(n as nat),
            None => None,
        }) == unsigned(s@, u32::MAX as nat),
{
    match unsigned_number(s, 0xffff_ffff) {
        Some(n) => Some(n as u32),
        None => None,
    }
}

/// A `u64` written as a numeral.
pub fn parse_u64(s: &str) -> (r: Option<u64>)
    ensures
        (match r {
            Some(n) => Some(n as nat),
            None => None,
        }) == unsigned(s@, u64::MAX as nat),
{
    unsigned_number(s, 0xffff_ffff_ffff_ffff)
}

/// An `i32` written as a numeral, with a sign or without.
pub fn parse_i32(s: &str) -> (r: Option<i32>)
    ensures
        (match r {
            Some(n) => Some(n as int),
            None => None,
        }) == signed(s@),
{
    let v = chars_of(s);
    if v.len() > 0 && v[0] == '-' {
        match read_digits(&v, 1, 0x8000_0000) {
            Some(n) => {
                let back: i64 = 0 - n as i64;
                Some(back as i32)
            },
            None => None,
        }
    } else {
        match unsigned_number(s, 0x7fff_ffff) {
            Some(n) => Some(n as i32),
            None => None,
        }
    }
}

fn not_a_number(what: &str, got: &str) -> (r: Complaint)
    ensures
        is_about(r, what@, got@),
{
    Complaint::NotANumber { what: what.to_owned(), got: got.to_owned() }
}

/// Complaining that the argument `what` is no number.
pub open spec fn is_about(c: Complaint, what: Seq<char>, got: Seq<char>) -> bool {
    c matches Complaint::NotANumber { what: w, got: g } && w@ == what && g@ == got
}

// ------------------------------------------------------------- subcommands --

/// The subcommand of this name.
pub open spec fn subcommand_named(name: Seq<char>) -> Option<Subcommand> {
    if name == "pointer"@ {
        Some(Subcommand::Pointer)
    } else if name == "scroll"@ {
        Some(Subcommand::Scroll)
    } else if name == "key"@ {
        Some(Subcommand::Key)
    } else if name == "hold"@ {
        Some(Subcommand::Hold)
    } else {
        None
    }
}

/// How many arguments it needs, the program and itself among them.
pub open spec fn needed(s: Subcommand) -> nat {
    match s {
        Subcommand::Pointer => 5,
        Subcommand::Scroll => 6,
        Subcommand::Key => 3,
        Subcommand::Hold => 5,
    }
}

/// What a command line asks for, if its shape is right. `args` begins with the
/// program.
pub open spec fn shape_of(args: Seq<String>, r: Result<Subcommand, Complaint>) -> bool {
    if args.len() < 2 || args[1]@.len() == 0 {
        r matches Err(Complaint::NoSubcommand)
    } else {
        match subcommand_named(args[1]@) {
            None => r matches Err(Complaint::UnknownSubcommand(name)) && name@ == args[1]@,
            Some(s) => if args.len() < needed(s) {
                r matches Err(Complaint::TooFew { needed: n, given }) && n == needed(s) - 2 && given
                    == args.len() - 2
            } else {
                r matches Ok(t) && t == s
            },
        }
    }
}

/// What a command line asks for, if its shape is right.
pub fn subcommand(args: &Vec<String>) -> (r: Result<Subcommand, Complaint>)
    ensures
        shape_of(args@, r),
{
    if args.len() < 2 {
        return Err(Complaint::NoSubcommand);
    }
    proof {
        reveal_strlit("");
        reveal_strlit("pointer");
        reveal_strlit("scroll");
        reveal_strlit("key");
        reveal_strlit("hold");
        assert(args@[1]@.len() == 0 ==> args@[1]@ =~= ""@);
    }
    let name = &args[1];
    if same_text(name, "") {
        return Err(Complaint::NoSubcommand);
    }
    let (s, need): (Subcommand, usize) = if same_text(name, "pointer") {
        (Subcommand::Pointer, 5)
    } else if same_text(name, "scroll") {
        (Subcommand::Scroll, 6)
    } else if same_text(name, "key") {
        (Subcommand::Key, 3)
    } else if same_text(name, "hold") {
        (Subcommand::Hold, 5)
    } else {
        return Err(Complaint::UnknownSubcommand(name.clone()));
    };
    if args.len() < need {
        return Err(Complaint::TooFew { needed: need - 2, given: args.len() - 2 });
    }
    Ok(s)
}

/// Where a pointer goes and what it does there.
#[derive(Debug, PartialEq, Eq)]
pub struct PointerPlan {
    pub output: String,
    pub x: u32,
    pub y: u32,
    pub click: bool,
    /// Wheel detents; positive is down.
    pub steps: i32,
}

/// What a `pointer` or `scroll` command line asks for.
pub open spec fn pointer_of(
    args: Seq<String>,
    scrolling: bool,
    r: Result<PointerPlan, Complaint>,
) -> bool {
    match (unsigned(args[3]@, u32::MAX as nat), unsigned(args[4]@, u32::MAX as nat)) {
        (None, _) => r matches Err(c) && is_about(c, "x"@, args[3]@),
        (Some(_), None) => r matches Err(c) && is_about(c, "y"@, args[4]@),
        (Some(x), Some(y)) => if scrolling && signed(args[5]@) is None {
            r matches Err(c) && is_about(c, "steps"@, args[5]@)
        } else {
            &&& r matches Ok(plan)
            &&& plan.output@ == args[2]@
            &&& plan.x == x
            &&& plan.y == y
            &&& plan.click == (!scrolling && args.len() > 5 && args[5]@ == "click"@)
            &&& plan.steps == if scrolling {
                signed(args[5]@)->0
            } else {
                0
            }
        },
    }
}

/// What a `pointer` or `scroll` command line of the right shape asks for.
pub fn pointer_plan(args: &Vec<String>, scrolling: bool) -> (r: Result<PointerPlan, Complaint>)
    requires
        args@.len() >= 5,
        scrolling ==> args@.len() >= 6,
    ensures
        pointer_of(args@, scrolling, r),
{
    let x: u32 = match parse_u32(&args[3]) {
        Some(n) => n,
        None => {
            return Err(not_a_number("x", &args[3]));
        },
    };
    let y: u32 = match parse_u32(&args[4]) {
        Some(n) => n,
        None => {
            return Err(not_a_number("y", &args[4]));
        },
    };
    let click = !scrolling && args.len() > 5 && same_text(&args[5], "click");
    let steps: i32 = if scrolling {
        match parse_i32(&args[5]) {
            Some(n) => n,
            None => {
                return Err(not_a_number("steps", &args[5]));
            },
        }
    } else {
        0
    };
    Ok(PointerPlan { output: args[2].clone(), x, y, click, steps })
}

/// A number that may be left out.
pub open spec fn optional_unsigned(args: Seq<String>, i: int, max: nat) -> Option<nat> {
    if args.len() > i {
        unsigned(args[i]@, max)
    } else {
        Some(0)
    }
}

/// The key that a `key` command line of the right shape asks for, and how long
/// to wait before it, in milliseconds.
pub fn key_plan(args: &Vec<String>) -> (r: Result<(u32, u64), Complaint>)
    requires
        args@.len() >= 3,
    ensures
        match (
            unsigned(args@[2]@, u32::MAX as nat),
            optional_unsigned(args@, 3, u64::MAX as nat),
        ) {
            (None, _) => r matches Err(c) && is_about(c, "evdev-code"@, args@[2]@),
            (Some(_), None) => r matches Err(c) && is_about(c, "delay_ms"@, args@[3]@),
            (Some(code), Some(delay)) => r matches Ok(plan) && plan.0 == code && plan.1 == delay,
        },
{
    let code: u32 = match parse_u32(&args[2]) {
        Some(n) => n,
        None => {
            return Err(not_a_number("evdev-code", &args[2]));
        },
    };
    if args.len() > 3 {
        match parse_u64(&args[3]) {
            Some(delay) => Ok((code, delay)),
            None => Err(not_a_number("delay_ms", &args[3])),
        }
    } else {
        Ok((code, 0))
    }
}

/// The modifiers to hold around that key.
pub fn key_modifiers(args: &Vec<String>) -> (r: Result<u32, Complaint>)
    ensures
        match optional_unsigned(args@, 4, u32::MAX as nat) {
            None => r matches Err(c) && is_about(c, "xkb_mod_mask"@, args@[4]@),
            Some(mods) => r matches Ok(m) && m == mods,
        },
{
    if args.len() > 4 {
        match parse_u32(&args[4]) {
            Some(n) => Ok(n),
            None => Err(not_a_number("xkb_mod_mask", &args[4])),
        }
    } else {
        Ok(0)
    }
}

/// The modifier that is held: its key and its mask, and how long to wait before
/// it goes down, in milliseconds.
#[derive(Debug, Clone, Copy, PartialEq, Eq, Structural)]
pub struct HoldPlan {
    pub code: u32,
    pub mask: u32,
    pub setup_ms: u64,
}

/// What a `hold` command line of the right shape asks for.
pub fn hold_plan(args: &Vec<String>) -> (r: Result<HoldPlan, Complaint>)
    requires
        args@.len() >= 5,
    ensures
        match (
            unsigned(args@[2]@, u32::MAX as nat),
            unsigned(args@[3]@, u32::MAX as nat),
            unsigned(args@[4]@, u64::MAX as nat),
        ) {
            (None, _, _) => r matches Err(c) && is_about(c, "mod-evdev-code"@, args@[2]@),
            (Some(_), None, _) => r matches Err(c) && is_about(c, "xkb_mod_mask"@, args@[3]@),
            (Some(_), Some(_), None) => r matches Err(c) && is_about(c, "setup_ms"@, args@[4]@),
            (Some(code), Some(mask), Some(ms)) => r matches Ok(plan) && plan.code == code
                && plan.mask == mask && plan.setup_ms == ms,
        },
{
    let code: u32 = match parse_u32(&args[2]) {
        Some(n) => n,
        None => {
            return Err(not_a_number("mod-evdev-code", &args[2]));
        },
    };
    let mask: u32 = match parse_u32(&args[3]) {
        Some(n) => n,
        None => {
            return Err(not_a_number("xkb_mod_mask", &args[3]));
        },
    };
    match parse_u64(&args[4]) {
        Some(setup_ms) => Ok(HoldPlan { code, mask, setup_ms }),
        None => Err(not_a_number("setup_ms", &args[4])),
    }
}

/// What to do while the modifier is held.
#[derive(Debug, PartialEq, Eq)]
pub enum HoldAction {
    /// Tap a key.
    Key(u32),
    /// Wait, in milliseconds.
    Sleep(u64),
    /// Run a command.
    Run(String),
}

pub open spec fn is_colon() -> spec_fn(char) -> bool {
    |c: char| c == ':'
}

/// The text before the first colon, and the text behind it.
pub open spec fn split(s: Seq<char>) -> (Seq<char>, Seq<char>) {
    match crate::lists::position(s, is_colon()) {
        Some(i) => (s.take(i), s.skip(i + 1)),
        None => (s, seq![]),
    }
}

/// What an action asks for.
pub open spec fn action_of(s: Seq<char>, r: Result<HoldAction, Complaint>) -> bool {
    let (kind, rest) = split(s);
    if kind == "key"@ {
        match unsigned(rest, u32::MAX as nat) {
            Some(n) => r matches Ok(HoldAction::Key(code)) && code == n,
            None => r matches Err(c) && is_about(c, "key:<evdev-code>"@, rest),
        }
    } else if kind == "sleep"@ {
        match unsigned(rest, u64::MAX as nat) {
            Some(n) => r matches Ok(HoldAction::Sleep(ms)) && ms == n,
            None => r matches Err(c) && is_about(c, "sleep:<ms>"@, rest),
        }
    } else if kind == "run"@ {
        r matches Ok(HoldAction::Run(cmd)) && cmd@ == rest
    } else {
        r matches Err(Complaint::UnknownAction(a)) && a@ == s
    }
}

fn split_once(s: &str) -> (r: (String, String))
    ensures
        (r.0@, r.1@) == split(s@),
{
    let v = chars_of(s);
    for i in 0..v.len()
        invariant
            v@ == s@,
            forall|j: int| 0 <= j < i ==> !is_colon()(#[trigger] s@[j]),
    {
        if v[i] == ':' {
            proof {
                crate::lists::lemma_position_is(s@, is_colon(), i as int);
            }
            let kind = text_of(&v, 0, i);
            let rest = text_of(&v, i + 1, v.len());
            assert(kind@ =~= s@.take(i as int));
            assert(rest@ =~= s@.skip(i + 1));
            return (kind, rest);
        }
    }
    proof {
        crate::lists::lemma_position_none(s@, is_colon());
        reveal_strlit("");
        assert(""@ =~= seq![]);
    }
    (s.to_owned(), "".to_owned())
}

/// One action of a `hold` command line: `key:<code>`, `sleep:<ms>` or
/// `run:<command>`.
pub fn hold_action(s: &str) -> (r: Result<HoldAction, Complaint>)
    ensures
        action_of(s@, r),
{
    let (kind, rest): (String, String) = split_once(s);
    if same_text(&kind, "key") {
        match parse_u32(&rest) {
            Some(code) => Ok(HoldAction::Key(code)),
            None => Err(not_a_number("key:<evdev-code>", &rest)),
        }
    } else if same_text(&kind, "sleep") {
        match parse_u64(&rest) {
            Some(ms) => Ok(HoldAction::Sleep(ms)),
            None => Err(not_a_number("sleep:<ms>", &rest)),
        }
    } else if same_text(&kind, "run") {
        Ok(HoldAction::Run(rest))
    } else {
        Err(Complaint::UnknownAction(s.to_owned()))
    }
}

// ----------------------------------------------------------------- scripts --

/// How long a new virtual pointer takes to be noticed, in milliseconds.
pub const POINTER_SETTLE: u64 = 1_200;

/// How long a new virtual keyboard takes to be noticed, in milliseconds.
pub const KEYBOARD_SETTLE: u64 = 400;

/// The extent that pointer coordinates are given in.
pub const EXTENT: (u32, u32) = (1280, 720);

/// The evdev code of the left button.
pub const BTN_LEFT: u32 = 0x110;

/// One step of a virtual device. All but a pause are sent at once.
#[derive(Debug, Clone, Copy, PartialEq, Eq, Structural)]
#[allow(inconsistent_fields)]
pub enum DeviceStep {
    /// Move the pointer.
    Motion { x: u32, y: u32 },
    /// Press or release the left button.
    Button { pressed: bool },
    /// Turn the wheel by one detent: 1 is down, -1 is up.
    Detent { dir: i32 },
    /// Set the modifiers that are down.
    Modifiers(u32),
    /// Press or release a key.
    Key { code: u32, pressed: bool },
    /// Wait, in milliseconds.
    Pause(u64),
}

/// The motions of every pointer script. There are several because the first may
/// come before the client has its pointer, and they differ so that each is one.
pub open spec fn motions(x: int, y: u32) -> Seq<DeviceStep> {
    Seq::new(
        12,
        |k: int|
            if k % 2 == 0 {
                DeviceStep::Motion { x: (x + k / 2 % 2) as u32, y }
            } else {
                DeviceStep::Pause(150)
            },
    )
}

pub open spec fn click() -> Seq<DeviceStep> {
    seq![
        DeviceStep::Button { pressed: true },
        DeviceStep::Pause(120),
        DeviceStep::Button { pressed: false },
    ]
}

/// As many detents as there are steps, in their direction.
pub open spec fn detents(steps: int) -> Seq<DeviceStep> {
    Seq::new(
        (2 * if steps >= 0 {
            steps
        } else {
            -steps
        }) as nat,
        |k: int|
            if k % 2 == 0 {
                DeviceStep::Detent {
                    dir: if steps >= 0 {
                        1
                    } else {
                        (-1) as i32
                    },
                }
            } else {
                DeviceStep::Pause(60)
            },
    )
}

/// All that the pointer does: it moves, it clicks or turns the wheel, and it
/// stays long enough for that to be delivered.
pub open spec fn pointer_script(plan: PointerPlan, scrolling: bool) -> Seq<DeviceStep> {
    motions(plan.x as int, plan.y) + (if plan.click {
        click()
    } else {
        seq![]
    }) + (if scrolling {
        detents(plan.steps as int)
    } else {
        seq![]
    }) + seq![DeviceStep::Pause(600)]
}

/// Step `k` of what the pointer does, or none when it is done.
pub fn pointer_step(plan: &PointerPlan, scrolling: bool, k: u64) -> (r: Option<DeviceStep>)
    requires
        plan.x < u32::MAX,
        plan.steps > i32::MIN,
    ensures
        ({
            let script = pointer_script(*plan, scrolling);
            r == if k < script.len() {
                Some(script[k as int])
            } else {
                None
            }
        }),
{
    let mut k: u64 = k;
    if k < 12 {
        return Some(
            if k % 2 == 0 {
                DeviceStep::Motion { x: plan.x + (k / 2 % 2) as u32, y: plan.y }
            } else {
                DeviceStep::Pause(150)
            },
        );
    }
    k = k - 12;
    if plan.click {
        if k < 3 {
            return Some(
                if k == 1 {
                    DeviceStep::Pause(120)
                } else {
                    DeviceStep::Button { pressed: k == 0 }
                },
            );
        }
        k = k - 3;
    }
    if scrolling {
        let dir: i32 = if plan.steps >= 0 {
            1
        } else {
            -1
        };
        let n: u64 = 2 * if plan.steps >= 0 {
            plan.steps as u64
        } else {
            (-plan.steps) as u64
        };
        if k < n {
            return Some(
                if k % 2 == 0 {
                    DeviceStep::Detent { dir }
                } else {
                    DeviceStep::Pause(60)
                },
            );
        }
        k = k - n;
    }
    if k == 0 {
        Some(DeviceStep::Pause(600))
    } else {
        None
    }
}

/// A key pressed and released.
pub open spec fn tap(code: u32) -> Seq<DeviceStep> {
    seq![
        DeviceStep::Key { code, pressed: true },
        DeviceStep::Pause(60),
        DeviceStep::Key { code, pressed: false },
    ]
}

/// A key pressed and released.
pub fn tap_script(code: u32) -> (r: Vec<DeviceStep>)
    ensures
        r@ == tap(code),
{
    vec![
        DeviceStep::Key { code, pressed: true },
        DeviceStep::Pause(60),
        DeviceStep::Key { code, pressed: false },
    ]
}

/// A tap with modifiers held around it, if there are any, and time for it to be
/// delivered.
pub open spec fn key_steps(code: u32, mods: u32) -> Seq<DeviceStep> {
    if mods == 0 {
        tap(code) + seq![DeviceStep::Pause(500)]
    } else {
        seq![DeviceStep::Modifiers(mods), DeviceStep::Pause(40)] + tap(code) + seq![
            DeviceStep::Pause(40),
            DeviceStep::Modifiers(0),
            DeviceStep::Pause(500),
        ]
    }
}

/// What a `key` command line has the keyboard do once the delay is over.
pub fn key_script(code: u32, mods: u32) -> (r: Vec<DeviceStep>)
    ensures
        r@ == key_steps(code, mods),
{
    let mut steps: Vec<DeviceStep> = Vec::new();
    if mods != 0 {
        steps.push(DeviceStep::Modifiers(mods));
        steps.push(DeviceStep::Pause(40));
    }
    steps.append(&mut tap_script(code));
    if mods != 0 {
        steps.push(DeviceStep::Pause(40));
        steps.push(DeviceStep::Modifiers(0));
    }
    steps.push(DeviceStep::Pause(500));
    assert(steps@ =~= key_steps(code, mods));
    steps
}

/// The modifier going down: the mask, which sway's bindings go by, and the key,
/// which clients see. Either is left out where it is 0.
pub open spec fn press(plan: HoldPlan) -> Seq<DeviceStep> {
    (if plan.mask != 0 {
        seq![DeviceStep::Modifiers(plan.mask), DeviceStep::Pause(40)]
    } else {
        seq![]
    }) + (if plan.code != 0 {
        seq![DeviceStep::Key { code: plan.code, pressed: true }, DeviceStep::Pause(120)]
    } else {
        seq![]
    })
}

/// The modifier coming up: the same in the opposite order, and time for it to
/// be delivered.
pub open spec fn release(plan: HoldPlan) -> Seq<DeviceStep> {
    (if plan.code != 0 {
        seq![DeviceStep::Key { code: plan.code, pressed: false }, DeviceStep::Pause(40)]
    } else {
        seq![]
    }) + (if plan.mask != 0 {
        seq![DeviceStep::Modifiers(0)]
    } else {
        seq![]
    }) + seq![DeviceStep::Pause(600)]
}

/// What the keyboard does before the actions of a `hold` command line.
pub fn press_script(plan: HoldPlan) -> (r: Vec<DeviceStep>)
    ensures
        r@ == press(plan),
{
    let mut steps: Vec<DeviceStep> = Vec::new();
    if plan.mask != 0 {
        steps.push(DeviceStep::Modifiers(plan.mask));
        steps.push(DeviceStep::Pause(40));
    }
    if plan.code != 0 {
        steps.push(DeviceStep::Key { code: plan.code, pressed: true });
        steps.push(DeviceStep::Pause(120));
    }
    assert(steps@ =~= press(plan));
    steps
}

/// What the keyboard does after them.
pub fn release_script(plan: HoldPlan) -> (r: Vec<DeviceStep>)
    ensures
        r@ == release(plan),
{
    let mut steps: Vec<DeviceStep> = Vec::new();
    if plan.code != 0 {
        steps.push(DeviceStep::Key { code: plan.code, pressed: false });
        steps.push(DeviceStep::Pause(40));
    }
    if plan.mask != 0 {
        steps.push(DeviceStep::Modifiers(0));
    }
    steps.push(DeviceStep::Pause(600));
    assert(steps@ =~= release(plan));
    steps
}

// -------------------------------------------------------------------- laws --

proof fn lemma_decimal_is_a_numeral(n: nat)
    ensures
        is_numeral(crate::text::decimal(n)),
        value_of(crate::text::decimal(n)) == n,
    decreases n,
{
    let s = crate::text::decimal(n);
    if n >= 10 {
        lemma_decimal_is_a_numeral(n / 10);
        let init = crate::text::decimal(n / 10);
        assert(s =~= init.push(crate::text::digit((n % 10) as int)));
        assert(s.drop_last() =~= init);
        assert forall|i: int| 0 <= i < s.len() implies is_digit(#[trigger] s[i]) by {
            if i < init.len() {
                assert(is_digit(init[i]));
            }
        }
    } else {
        assert(s =~= seq![crate::text::digit(n as int)]);
        assert(s.drop_last() =~= seq![]);
        assert(value_of(s.drop_last()) == 0);
    }
}

/// A number written in decimal is read back.
pub proof fn law_numerals_are_read_back(n: nat, max: nat)
    requires
        n <= max,
    ensures
        unsigned(crate::text::decimal(n), max) == Some(n),
{
    lemma_decimal_is_a_numeral(n);
    assert(is_digit(crate::text::decimal(n)[0]));
}

/// What is down on the virtual devices.
pub ghost struct Held {
    pub keys: Set<u32>,
    pub mask: u32,
    pub button: bool,
}

/// Nothing at all.
pub open spec fn nothing_held() -> Held {
    Held { keys: Set::empty(), mask: 0, button: false }
}

/// What is down after some steps.
pub open spec fn held_after(h: Held, steps: Seq<DeviceStep>) -> Held
    decreases steps.len(),
{
    if steps.len() == 0 {
        h
    } else {
        let before = held_after(h, steps.drop_last());
        match steps.last() {
            DeviceStep::Button { pressed } => Held { button: pressed, ..before },
            DeviceStep::Modifiers(mask) => Held { mask, ..before },
            DeviceStep::Key { code, pressed } => Held {
                keys: if pressed {
                    before.keys.insert(code)
                } else {
                    before.keys.remove(code)
                },
                ..before
            },
            _ => before,
        }
    }
}

proof fn lemma_held_after_sum(h: Held, a: Seq<DeviceStep>, b: Seq<DeviceStep>)
    ensures
        held_after(h, a + b) == held_after(held_after(h, a), b),
    decreases b.len(),
{
    if b.len() == 0 {
        assert(a + b =~= a);
    } else {
        assert((a + b).drop_last() =~= a + b.drop_last());
        lemma_held_after_sum(h, a, b.drop_last());
    }
}

proof fn lemma_held_after_one(h: Held, s: DeviceStep)
    ensures
        held_after(h, seq![s]) == (match s {
            DeviceStep::Button { pressed } => Held { button: pressed, ..h },
            DeviceStep::Modifiers(mask) => Held { mask, ..h },
            DeviceStep::Key { code, pressed } => Held {
                keys: if pressed {
                    h.keys.insert(code)
                } else {
                    h.keys.remove(code)
                },
                ..h
            },
            _ => h,
        }),
{
    assert(seq![s].drop_last() =~= seq![]);
    reveal_with_fuel(held_after, 2);
}

proof fn lemma_held_after_two(h: Held, s: DeviceStep, t: DeviceStep)
    ensures
        held_after(h, seq![s, t]) == held_after(held_after(h, seq![s]), seq![t]),
{
    assert(seq![s, t] =~= seq![s] + seq![t]);
    lemma_held_after_sum(h, seq![s], seq![t]);
}

proof fn lemma_held_after_three(h: Held, s: DeviceStep, t: DeviceStep, u: DeviceStep)
    ensures
        held_after(h, seq![s, t, u]) == held_after(
            held_after(held_after(h, seq![s]), seq![t]),
            seq![u],
        ),
{
    assert(seq![s, t, u] =~= seq![s, t] + seq![u]);
    lemma_held_after_sum(h, seq![s, t], seq![u]);
    lemma_held_after_two(h, s, t);
}

proof fn lemma_held_after_tap(h: Held, code: u32)
    ensures
        held_after(h, tap(code)) == (Held { keys: h.keys.remove(code), ..h }),
{
    let down = DeviceStep::Key { code, pressed: true };
    let up = DeviceStep::Key { code, pressed: false };
    let h1 = Held { keys: h.keys.insert(code), ..h };
    lemma_held_after_three(h, down, DeviceStep::Pause(60), up);
    lemma_held_after_one(h, down);
    lemma_held_after_one(h1, DeviceStep::Pause(60));
    lemma_held_after_one(h1, up);
    assert(h1.keys.remove(code) =~= h.keys.remove(code));
}

proof fn lemma_nothing_pressed(h: Held, steps: Seq<DeviceStep>)
    requires
        forall|k: int|
            0 <= k < steps.len() ==> (#[trigger] steps[k]) is Motion || steps[k] is Detent
                || steps[k] is Pause,
    ensures
        held_after(h, steps) == h,
    decreases steps.len(),
{
    if steps.len() > 0 {
        assert(steps.last() == steps[steps.len() - 1]);
        assert forall|k: int| 0 <= k < steps.drop_last().len() implies (
        #[trigger] steps.drop_last()[k]) is Motion || steps.drop_last()[k] is Detent
            || steps.drop_last()[k] is Pause by {
            assert(steps.drop_last()[k] == steps[k]);
        }
        lemma_nothing_pressed(h, steps.drop_last());
    }
}

/// A pointer script ends with the button up.
pub proof fn law_a_pointer_script_lets_go(plan: PointerPlan, scrolling: bool)
    ensures
        held_after(nothing_held(), pointer_script(plan, scrolling)) == nothing_held(),
{
    let h = nothing_held();
    let a = motions(plan.x as int, plan.y);
    let b = if plan.click {
        click()
    } else {
        seq![]
    };
    let c = if scrolling {
        detents(plan.steps as int)
    } else {
        seq![]
    };
    let d = seq![DeviceStep::Pause(600)];
    lemma_held_after_sum(h, a + b + c, d);
    lemma_held_after_sum(h, a + b, c);
    lemma_held_after_sum(h, a, b);
    lemma_nothing_pressed(h, a);
    if plan.click {
        let down = DeviceStep::Button { pressed: true };
        let up = DeviceStep::Button { pressed: false };
        let h1 = Held { button: true, ..h };
        lemma_held_after_three(h, down, DeviceStep::Pause(120), up);
        lemma_held_after_one(h, down);
        lemma_held_after_one(h1, DeviceStep::Pause(120));
        lemma_held_after_one(h1, up);
    }
    lemma_nothing_pressed(h, c);
    lemma_nothing_pressed(h, d);
}

/// A key script ends with no key and no modifier down.
pub proof fn law_a_key_script_lets_go(code: u32, mods: u32)
    ensures
        held_after(nothing_held(), key_steps(code, mods)) == nothing_held(),
{
    let h = nothing_held();
    assert(h.keys.remove(code) =~= h.keys);
    if mods == 0 {
        lemma_held_after_sum(h, tap(code), seq![DeviceStep::Pause(500)]);
        lemma_held_after_tap(h, code);
        lemma_held_after_one(h, DeviceStep::Pause(500));
    } else {
        let h1 = Held { mask: mods, ..h };
        let a = seq![DeviceStep::Modifiers(mods), DeviceStep::Pause(40)];
        let c = seq![DeviceStep::Pause(40), DeviceStep::Modifiers(0), DeviceStep::Pause(500)];
        lemma_held_after_sum(h, a + tap(code), c);
        lemma_held_after_sum(h, a, tap(code));
        lemma_held_after_two(h, DeviceStep::Modifiers(mods), DeviceStep::Pause(40));
        lemma_held_after_one(h, DeviceStep::Modifiers(mods));
        lemma_held_after_one(h1, DeviceStep::Pause(40));
        lemma_held_after_tap(h1, code);
        lemma_held_after_three(
            h1,
            DeviceStep::Pause(40),
            DeviceStep::Modifiers(0),
            DeviceStep::Pause(500),
        );
        lemma_held_after_one(h1, DeviceStep::Modifiers(0));
        lemma_held_after_one(h, DeviceStep::Pause(500));
    }
}

/// The keys that are tapped while a modifier is held.
pub open spec fn taps(codes: Seq<u32>) -> Seq<DeviceStep>
    decreases codes.len(),
{
    if codes.len() == 0 {
        seq![]
    } else {
        taps(codes.drop_last()) + tap(codes.last())
    }
}

proof fn lemma_held_after_taps(h: Held, codes: Seq<u32>)
    ensures
        held_after(h, taps(codes)).keys.subset_of(h.keys),
        held_after(h, taps(codes)) == (Held { keys: held_after(h, taps(codes)).keys, ..h }),
    decreases codes.len(),
{
    if codes.len() > 0 {
        let init = codes.drop_last();
        lemma_held_after_taps(h, init);
        lemma_held_after_sum(h, taps(init), tap(codes.last()));
        lemma_held_after_tap(held_after(h, taps(init)), codes.last());
    }
}

/// A hold ends with no key and no modifier down, whatever was tapped meanwhile.
pub proof fn law_a_hold_lets_go(plan: HoldPlan, codes: Seq<u32>)
    ensures
        held_after(nothing_held(), press(plan) + taps(codes) + release(plan)) == nothing_held(),
{
    let h = nothing_held();
    lemma_held_after_sum(h, press(plan) + taps(codes), release(plan));
    lemma_held_after_sum(h, press(plan), taps(codes));
    let h1 = lemma_held_after_press(h, plan);
    lemma_held_after_taps(h1, codes);
    let h2 = held_after(h1, taps(codes));
    lemma_held_after_release(h2, plan);
    assert(held_after(h2, release(plan)).keys =~= h.keys);
}

proof fn lemma_held_after_press(h: Held, plan: HoldPlan) -> (r: Held)
    requires
        h == nothing_held(),
    ensures
        r == held_after(h, press(plan)),
        r.mask == plan.mask,
        !r.button,
        forall|k: u32| #[trigger] r.keys.contains(k) ==> k == plan.code && plan.code != 0,
{
    let a = if plan.mask != 0 {
        seq![DeviceStep::Modifiers(plan.mask), DeviceStep::Pause(40)]
    } else {
        seq![]
    };
    let down = DeviceStep::Key { code: plan.code, pressed: true };
    let b = if plan.code != 0 {
        seq![down, DeviceStep::Pause(120)]
    } else {
        seq![]
    };
    lemma_held_after_sum(h, a, b);
    lemma_held_after_two(h, DeviceStep::Modifiers(plan.mask), DeviceStep::Pause(40));
    lemma_held_after_one(h, DeviceStep::Modifiers(plan.mask));
    let h1 = Held { mask: plan.mask, ..h };
    lemma_held_after_one(h1, DeviceStep::Pause(40));
    assert(held_after(h, a) == h1);
    lemma_held_after_two(h1, down, DeviceStep::Pause(120));
    lemma_held_after_one(h1, down);
    lemma_held_after_one(held_after(h1, seq![down]), DeviceStep::Pause(120));
    held_after(h, press(plan))
}

proof fn lemma_held_after_release(h: Held, plan: HoldPlan)
    requires
        h.mask == plan.mask,
    ensures
        held_after(h, release(plan)) == (Held {
            mask: 0,
            keys: if plan.code != 0 {
                h.keys.remove(plan.code)
            } else {
                h.keys
            },
            ..h
        }),
{
    let up = DeviceStep::Key { code: plan.code, pressed: false };
    let a = if plan.code != 0 {
        seq![up, DeviceStep::Pause(40)]
    } else {
        seq![]
    };
    let b = if plan.mask != 0 {
        seq![DeviceStep::Modifiers(0)]
    } else {
        seq![]
    };
    let c = seq![DeviceStep::Pause(600)];
    lemma_held_after_sum(h, a + b, c);
    lemma_held_after_sum(h, a, b);
    lemma_held_after_two(h, up, DeviceStep::Pause(40));
    lemma_held_after_one(h, up);
    lemma_held_after_one(held_after(h, seq![up]), DeviceStep::Pause(40));
    let h1 = held_after(h, a);
    lemma_held_after_one(h1, DeviceStep::Modifiers(0));
    lemma_held_after_one(held_after(h1, b), DeviceStep::Pause(600));
}

/// Each further digit counts ten times what was there before and itself; so a
/// number is read as it is written, behind one plus sign at most, up to the
/// largest that is allowed.
pub proof fn law_numbers_are_read_as_written(s: Seq<char>, d: char, max: nat)
    requires
        is_numeral(s),
        is_digit(d),
    ensures
        value_of(s.push(d)) == value_of(s) * 10 + (d as int - '0' as int),
        unsigned(s, max) == (if value_of(s) <= max {
            Some(value_of(s))
        } else {
            None
        }),
        unsigned(seq!['+'] + s, max) == unsigned(s, max),
        unsigned(seq!['+', '+'] + s, max) is None,
        unsigned(seq!['-'] + s, max) is None,
{
    assert(s.push(d).drop_last() =~= s);
    assert(is_digit(s[0]));
    assert((seq!['+'] + s).skip(1) =~= s);
    let two = (seq!['+', '+'] + s).skip(1);
    assert(two[0] == '+' && !is_digit(two[0]));
    let back = seq!['-'] + s;
    assert(back[0] == '-' && !is_digit(back[0]));
}

/// What is no digit makes no number.
pub proof fn law_only_digits_make_a_number(s: Seq<char>, i: int, max: nat)
    requires
        0 <= i < s.len(),
        !('0' <= s[i] && s[i] <= '9'),
        i > 0 || (s[i] != '+' && s[i] != '-'),
    ensures
        unsigned(s, max) is None,
        signed(s) is None,
{
    let digits = without_plus(s);
    if s[0] == '+' {
        assert(digits[i - 1] == s[i]);
    }
    if s[0] == '-' {
        assert(s.skip(1)[i - 1] == s[i]);
        if digits.len() > 0 {
            assert(!is_digit(digits[0]));
        }
    }
    assert(!is_digit(s[i]));
}

/// A signed number written in decimal is read back.
pub proof fn law_signed_numerals_are_read_back(n: i32)
    ensures
        signed(crate::text::signed_decimal(n as int)) == Some(n as int),
{
    reveal_strlit("-");
    let m = if n < 0 {
        -(n as int)
    } else {
        n as int
    } as nat;
    lemma_decimal_is_a_numeral(m);
    assert(is_digit(crate::text::decimal(m)[0]));
    if n < 0 {
        let s = crate::text::signed_decimal(n as int);
        assert(s[0] == '-');
        assert(s.skip(1) =~= crate::text::decimal(m));
    } else {
        law_numerals_are_read_back(m, i32::MAX as nat);
    }
}

/// An action is what stands before its first colon, and about what stands
/// behind it.
pub proof fn law_actions_are_split_at_the_first_colon(kind: Seq<char>, rest: Seq<char>)
    requires
        forall|i: int| 0 <= i < kind.len() ==> #[trigger] kind[i] != ':',
    ensures
        split(kind + seq![':'] + rest) == (kind, rest),
        split(kind) == (kind, Seq::<char>::empty()),
{
    let s = kind + seq![':'] + rest;
    let p = is_colon();
    let n = kind.len() as int;
    assert forall|j: int| 0 <= j < n implies !p(#[trigger] s[j]) by {
        assert(s[j] == kind[j]);
    }
    assert(p(s[n]));
    crate::lists::lemma_position_is(s, p, n);
    assert(s.take(n) =~= kind);
    assert(s.skip(n + 1) =~= rest);
    assert forall|j: int| 0 <= j < kind.len() implies !p(#[trigger] kind[j]) by {}
    crate::lists::lemma_position_none(kind, p);
}

/// How far the wheel is turned in all.
pub open spec fn turned(steps: Seq<DeviceStep>) -> int
    decreases steps.len(),
{
    if steps.len() == 0 {
        0
    } else {
        turned(steps.drop_last()) + match steps.last() {
            DeviceStep::Detent { dir } => dir as int,
            _ => 0,
        }
    }
}

proof fn lemma_turned_sum(a: Seq<DeviceStep>, b: Seq<DeviceStep>)
    ensures
        turned(a + b) == turned(a) + turned(b),
    decreases b.len(),
{
    if b.len() == 0 {
        assert(a + b =~= a);
    } else {
        assert((a + b).drop_last() =~= a + b.drop_last());
        lemma_turned_sum(a, b.drop_last());
    }
}

proof fn lemma_not_turned(steps: Seq<DeviceStep>)
    requires
        forall|k: int| 0 <= k < steps.len() ==> !(#[trigger] steps[k] is Detent),
    ensures
        turned(steps) == 0,
    decreases steps.len(),
{
    if steps.len() > 0 {
        assert(!(steps[steps.len() - 1] is Detent));
        assert forall|k: int| 0 <= k < steps.drop_last().len() implies !(
        #[trigger] steps.drop_last()[k] is Detent) by {
            assert(steps.drop_last()[k] == steps[k]);
        }
        lemma_not_turned(steps.drop_last());
    }
}

proof fn lemma_detents_turn(n: nat, down: bool)
    ensures
        turned(
            detents(
                if down {
                    n as int
                } else {
                    -(n as int)
                },
            ),
        ) == if down {
            n as int
        } else {
            -(n as int)
        },
    decreases n,
{
    let steps = if down {
        n as int
    } else {
        -(n as int)
    };
    let all = detents(steps);
    if n == 0 {
        assert(all =~= seq![]);
    } else {
        let m = (n - 1) as nat;
        let fewer = if down {
            m as int
        } else {
            -(m as int)
        };
        lemma_detents_turn(m, down);
        let init = all.drop_last().drop_last();
        let before = detents(fewer);
        assert(init.len() == before.len());
        assert forall|k: int| 0 <= k < init.len() implies init[k] == before[k] by {}
        assert(init =~= before);
        reveal_with_fuel(turned, 3);
        assert(all.last() == all[2 * n - 1] && all.last() is Pause);
        assert(all.drop_last().last() == all[2 * n - 2] && all[2 * n - 2] is Detent);
        if m == 0 && !down {
            assert(before =~= detents(0));
        }
    }
}

/// A pointer script moves to where it was asked to, or one to the right of it;
/// it presses the button exactly if it is to click; and it turns the wheel by
/// as many detents as were asked for, in their direction, if it is to scroll.
pub proof fn law_a_pointer_script_does_what_was_asked(
    plan: PointerPlan,
    scrolling: bool,
    k: int,
)
    requires
        plan.x < u32::MAX,
    ensures
        ({
            let script = pointer_script(plan, scrolling);
            &&& 0 <= k < script.len() && script[k] is Motion ==> script[k]->x - plan.x <= 1
                && script[k]->x >= plan.x && script[k]->y == plan.y
            &&& script[0] == (DeviceStep::Motion { x: plan.x, y: plan.y })
            &&& 0 <= k < script.len() && script[k] is Button ==> plan.click
            &&& plan.click ==> script.contains(DeviceStep::Button { pressed: true })
            &&& turned(script) == if scrolling {
                plan.steps as int
            } else {
                0
            }
        }),
{
    let a = motions(plan.x as int, plan.y);
    let b = if plan.click {
        click()
    } else {
        seq![]
    };
    let c = if scrolling {
        detents(plan.steps as int)
    } else {
        seq![]
    };
    let d = seq![DeviceStep::Pause(600)];
    let script = pointer_script(plan, scrolling);
    lemma_turned_sum(a + b + c, d);
    lemma_turned_sum(a + b, c);
    lemma_turned_sum(a, b);
    lemma_not_turned(a);
    lemma_not_turned(b);
    lemma_not_turned(d);
    if plan.steps >= 0 {
        lemma_detents_turn(plan.steps as nat, true);
    } else {
        lemma_detents_turn((-plan.steps) as nat, false);
    }
    if !scrolling {
        lemma_not_turned(c);
    }
    assert(script[0] == a[0]);
    if plan.click {
        assert(script[12] == b[0]);
    }
    if 0 <= k < script.len() {
        if k < 12 {
            assert(script[k] == a[k]);
        } else if k < 12 + b.len() {
            assert(script[k] == b[k - 12]);
        } else if k < 12 + b.len() + c.len() {
            assert(script[k] == c[k - 12 - b.len()]);
        }
    }
}

/// While the actions of a hold are run its key is down, if it has one, and so is
/// its mask.
pub proof fn law_a_hold_holds(plan: HoldPlan)
    ensures
        ({
            let h = held_after(nothing_held(), press(plan));
            &&& h.mask == plan.mask
            &&& !h.button
            &&& h.keys.contains(plan.code) <==> plan.code != 0
            &&& forall|k: u32| #[trigger] h.keys.contains(k) ==> k == plan.code
        }),
{
    let h = nothing_held();
    let h1 = lemma_held_after_press(h, plan);
    if plan.code != 0 {
        let down = DeviceStep::Key { code: plan.code, pressed: true };
        let a = if plan.mask != 0 {
            seq![DeviceStep::Modifiers(plan.mask), DeviceStep::Pause(40)]
        } else {
            seq![]
        };
        let b = seq![down, DeviceStep::Pause(120)];
        lemma_held_after_sum(h, a, b);
        lemma_held_after_two(held_after(h, a), down, DeviceStep::Pause(120));
        lemma_held_after_one(held_after(h, a), down);
        lemma_held_after_one(held_after(held_after(h, a), seq![down]), DeviceStep::Pause(120));
    }
}

/// A key is pressed once, with exactly its modifiers down.
pub proof fn law_a_key_is_tapped_with_its_modifiers(code: u32, mods: u32, k: int)
    requires
        0 <= k < key_steps(code, mods).len(),
    ensures
        ({
            let steps = key_steps(code, mods);
            &&& steps.contains(DeviceStep::Key { code, pressed: true })
            &&& steps[k] is Key ==> steps[k]->code == code && held_after(
                nothing_held(),
                steps.take(k),
            ).mask == mods
        }),
{
    let steps = key_steps(code, mods);
    let h = nothing_held();
    if mods == 0 {
        assert(steps[0] == (DeviceStep::Key { code, pressed: true }));
        lemma_mask_is(h, steps.take(k), 0);
    } else {
        assert(steps[2] == (DeviceStep::Key { code, pressed: true }));
        if steps[k] is Key {
            let a = seq![DeviceStep::Modifiers(mods)];
            let b = steps.subrange(1, k);
            assert(steps.take(k) =~= a + b);
            lemma_held_after_sum(h, a, b);
            lemma_held_after_one(h, DeviceStep::Modifiers(mods));
            lemma_mask_is(held_after(h, a), b, mods);
        }
    }
}

proof fn lemma_mask_is(h: Held, steps: Seq<DeviceStep>, mask: u32)
    requires
        h.mask == mask,
        forall|k: int| 0 <= k < steps.len() ==> !(#[trigger] steps[k] is Modifiers),
    ensures
        held_after(h, steps).mask == mask,
    decreases steps.len(),
{
    if steps.len() > 0 {
        assert(!(steps[steps.len() - 1] is Modifiers));
        assert forall|k: int| 0 <= k < steps.drop_last().len() implies !(
        #[trigger] steps.drop_last()[k] is Modifiers) by {
            assert(steps.drop_last()[k] == steps[k]);
        }
        lemma_mask_is(h, steps.drop_last(), mask);
    }
}

/// A command line is taken for the subcommand it names if it has that one's
/// arguments; what is missing is counted without the program and the name.
pub proof fn law_a_subcommand_needs_its_arguments(
    args: Seq<String>,
    s: Subcommand,
    r: Result<Subcommand, Complaint>,
)
    requires
        args.len() >= 2,
        args[1]@ == match s {
            Subcommand::Pointer => "pointer"@,
            Subcommand::Scroll => "scroll"@,
            Subcommand::Key => "key"@,
            Subcommand::Hold => "hold"@,
        },
        shape_of(args, r),
    ensures
        ({
            let least: int = match s {
                Subcommand::Pointer => 3,
                Subcommand::Scroll => 4,
                Subcommand::Key => 1,
                Subcommand::Hold => 3,
            };
            if args.len() - 2 >= least {
                r == Ok::<Subcommand, Complaint>(s)
            } else {
                r matches Err(Complaint::TooFew { needed: n, given }) && n == least && given
                    == args.len() - 2
            }
        }),
{
    reveal_strlit("pointer");
    reveal_strlit("scroll");
    reveal_strlit("key");
    reveal_strlit("hold");
    assert("pointer"@.len() == 7 && "scroll"@.len() == 6 && "key"@.len() == 3 && "hold"@.len() == 4);
}

/// A command line without a subcommand, or with one that is not known, is told
/// so.
pub proof fn law_other_subcommands_are_refused(
    args: Seq<String>,
    r: Result<Subcommand, Complaint>,
)
    requires
        shape_of(args, r),
    ensures
        args.len() < 2 || args[1]@.len() == 0 ==> r == Err::<Subcommand, Complaint>(
            Complaint::NoSubcommand,
        ),
        args.len() >= 2 && args[1]@.len() > 0 && args[1]@ != "pointer"@ && args[1]@ != "scroll"@
            && args[1]@ != "key"@ && args[1]@ != "hold"@ ==> (r matches Err(
            Complaint::UnknownSubcommand(name),
        ) && name@ == args[1]@),
{
}

/// A pointer goes to the output and the place it is told, across before down; it
/// clicks if the word for it follows, and scrolls by the number that does.
pub proof fn law_a_pointer_goes_where_it_is_told(
    args: Seq<String>,
    scrolling: bool,
    x: u32,
    y: u32,
    n: i32,
    r: Result<PointerPlan, Complaint>,
)
    requires
        args.len() >= 5,
        args[3]@ == crate::text::decimal(x as nat),
        args[4]@ == crate::text::decimal(y as nat),
        scrolling ==> args.len() >= 6 && args[5]@ == crate::text::signed_decimal(n as int),
        pointer_of(args, scrolling, r),
    ensures
        r matches Ok(plan) && plan.output@ == args[2]@ && plan.x == x && plan.y == y && plan.steps
            == (if scrolling {
            n as int
        } else {
            0
        }) && (plan.click <==> !scrolling && args.len() > 5 && args[5]@ == "click"@),
{
    law_numerals_are_read_back(x as nat, u32::MAX as nat);
    law_numerals_are_read_back(y as nat, u32::MAX as nat);
    law_signed_numerals_are_read_back(n);
}

/// The first argument that is no number is complained of, by what it is for.
pub proof fn law_the_first_bad_number_is_named(
    args: Seq<String>,
    scrolling: bool,
    r: Result<PointerPlan, Complaint>,
)
    requires
        args.len() >= 5,
        scrolling ==> args.len() >= 6,
        pointer_of(args, scrolling, r),
    ensures
        ({
            let x = unsigned(args[3]@, u32::MAX as nat);
            let y = unsigned(args[4]@, u32::MAX as nat);
            let about = |what: Seq<char>, got: Seq<char>|
                r matches Err(Complaint::NotANumber { what: w, got: g }) && w@ == what && g@ == got;
            &&& x is None ==> about("x"@, args[3]@)
            &&& x is Some && y is None ==> about("y"@, args[4]@)
            &&& x is Some && y is Some && scrolling && signed(args[5]@) is None ==> about(
                "steps"@,
                args[5]@,
            )
        }),
{
}

/// An action is a key, a wait or a command, by the word before its first colon.
pub proof fn law_actions_are_read_as_written(
    n: u32,
    ms: u64,
    cmd: Seq<char>,
    key: Result<HoldAction, Complaint>,
    sleep: Result<HoldAction, Complaint>,
    run: Result<HoldAction, Complaint>,
)
    requires
        action_of("key"@ + seq![':'] + crate::text::decimal(n as nat), key),
        action_of("sleep"@ + seq![':'] + crate::text::decimal(ms as nat), sleep),
        action_of("run"@ + seq![':'] + cmd, run),
    ensures
        key == Ok::<HoldAction, Complaint>(HoldAction::Key(n)),
        sleep == Ok::<HoldAction, Complaint>(HoldAction::Sleep(ms)),
        run matches Ok(HoldAction::Run(text)) && text@ == cmd,
{
    reveal_strlit("key");
    reveal_strlit("sleep");
    reveal_strlit("run");
    law_actions_are_split_at_the_first_colon("key"@, crate::text::decimal(n as nat));
    law_actions_are_split_at_the_first_colon("sleep"@, crate::text::decimal(ms as nat));
    law_actions_are_split_at_the_first_colon("run"@, cmd);
    law_numerals_are_read_back(n as nat, u32::MAX as nat);
    law_numerals_are_read_back(ms as nat, u64::MAX as nat);
    assert("key"@[0] == 'k' && "sleep"@[0] == 's' && "run"@[0] == 'r');
}

/// What begins with any other word is no action.
pub proof fn law_other_words_are_no_action(
    kind: Seq<char>,
    rest: Seq<char>,
    r: Result<HoldAction, Complaint>,
)
    requires
        forall|i: int| 0 <= i < kind.len() ==> #[trigger] kind[i] != ':',
        kind != "key"@,
        kind != "sleep"@,
        kind != "run"@,
        action_of(kind + seq![':'] + rest, r),
    ensures
        r matches Err(Complaint::UnknownAction(text)) && text@ == kind + seq![':'] + rest,
{
    law_actions_are_split_at_the_first_colon(kind, rest);
}

} // verus!
