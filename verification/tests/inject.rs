use svitek::inject::{
    hold_action, hold_plan, key_modifiers, key_plan, key_script, parse_i32, parse_u32, parse_u64,
    pointer_plan, pointer_step, press_script, release_script, subcommand, tap_script, Complaint,
    DeviceStep, HoldAction, HoldPlan, PointerPlan, Subcommand,
};

fn args(line: &str) -> Vec<String> {
    line.split(' ').map(str::to_string).collect()
}

fn not_a_number(what: &str, got: &str) -> Complaint {
    Complaint::NotANumber { what: what.to_string(), got: got.to_string() }
}

#[test]
fn numerals_are_read_as_rust_reads_them() {
    for s in [
        "0", "7", "42", "+5", "007", "4294967295", "4294967296", "18446744073709551615",
        "18446744073709551616", "-1", "-0", "-2147483648", "-2147483649", "2147483647",
        "2147483648", "", "+", "-", "1 ", " 1", "1x", "٣", "++1", "99999999999999999999999999",
    ] {
        assert_eq!(parse_u32(s), s.parse::<u32>().ok(), "{s:?} as u32");
        assert_eq!(parse_u64(s), s.parse::<u64>().ok(), "{s:?} as u64");
        assert_eq!(parse_i32(s), s.parse::<i32>().ok(), "{s:?} as i32");
    }
}

#[test]
fn the_shape_of_the_command_line_is_checked_first() {
    assert_eq!(subcommand(&args("inject")), Err(Complaint::NoSubcommand));
    assert_eq!(subcommand(&vec!["inject".to_string(), String::new()]), Err(Complaint::NoSubcommand));
    assert_eq!(
        subcommand(&args("inject fly")),
        Err(Complaint::UnknownSubcommand("fly".to_string()))
    );
    assert_eq!(
        subcommand(&args("inject pointer HEADLESS-1 10")),
        Err(Complaint::TooFew { needed: 3, given: 2 })
    );
    assert_eq!(
        subcommand(&args("inject scroll HEADLESS-1 10 10")),
        Err(Complaint::TooFew { needed: 4, given: 3 })
    );
    assert_eq!(subcommand(&args("inject key")), Err(Complaint::TooFew { needed: 1, given: 0 }));
    assert_eq!(subcommand(&args("inject key 1")), Ok(Subcommand::Key));
    assert_eq!(subcommand(&args("inject hold 125 64 500")), Ok(Subcommand::Hold));
    assert_eq!(subcommand(&args("inject pointer O 1 2")), Ok(Subcommand::Pointer));
    assert_eq!(subcommand(&args("inject scroll O 1 2 3")), Ok(Subcommand::Scroll));
}

#[test]
fn a_pointer_goes_clicks_or_scrolls() {
    let plan = |x, y, click, steps| {
        Ok(PointerPlan { output: "O".to_string(), x, y, click, steps })
    };
    assert_eq!(pointer_plan(&args("inject pointer O 10 20"), false), plan(10, 20, false, 0));
    assert_eq!(pointer_plan(&args("inject pointer O 10 20 click"), false), plan(10, 20, true, 0));
    assert_eq!(pointer_plan(&args("inject pointer O 10 20 clack"), false), plan(10, 20, false, 0));
    assert_eq!(pointer_plan(&args("inject scroll O 10 20 -3"), true), plan(10, 20, false, -3));
    assert_eq!(
        pointer_plan(&args("inject scroll O x 20 -3"), true),
        Err(not_a_number("x", "x"))
    );
    assert_eq!(
        pointer_plan(&args("inject scroll O 1 -20 -3"), true),
        Err(not_a_number("y", "-20"))
    );
    assert_eq!(
        pointer_plan(&args("inject scroll O 1 20 click"), true),
        Err(not_a_number("steps", "click"))
    );
}

#[test]
fn a_key_may_wait_and_have_modifiers() {
    assert_eq!(key_plan(&args("inject key 28")), Ok((28, 0)));
    assert_eq!(key_plan(&args("inject key 28 2000")), Ok((28, 2000)));
    assert_eq!(key_plan(&args("inject key esc")), Err(not_a_number("evdev-code", "esc")));
    assert_eq!(key_plan(&args("inject key 1 soon")), Err(not_a_number("delay_ms", "soon")));
    assert_eq!(key_modifiers(&args("inject key 28 2000")), Ok(0));
    assert_eq!(key_modifiers(&args("inject key 28 2000 64")), Ok(64));
    assert_eq!(
        key_modifiers(&args("inject key 28 2000 Mod4")),
        Err(not_a_number("xkb_mod_mask", "Mod4"))
    );
}

#[test]
fn a_held_modifier_has_actions() {
    assert_eq!(
        hold_plan(&args("inject hold 125 64 500")),
        Ok(HoldPlan { code: 125, mask: 64, setup_ms: 500 })
    );
    assert_eq!(
        hold_plan(&args("inject hold s 64 500")),
        Err(not_a_number("mod-evdev-code", "s"))
    );
    assert_eq!(
        hold_plan(&args("inject hold 0 m 500")),
        Err(not_a_number("xkb_mod_mask", "m"))
    );
    assert_eq!(
        hold_plan(&args("inject hold 0 0 later")),
        Err(not_a_number("setup_ms", "later"))
    );
    assert_eq!(hold_action("key:15"), Ok(HoldAction::Key(15)));
    assert_eq!(hold_action("sleep:120"), Ok(HoldAction::Sleep(120)));
    assert_eq!(hold_action("run:echo a:b"), Ok(HoldAction::Run("echo a:b".to_string())));
    assert_eq!(hold_action("run"), Ok(HoldAction::Run(String::new())));
    assert_eq!(hold_action("key:tab"), Err(not_a_number("key:<evdev-code>", "tab")));
    assert_eq!(hold_action("sleep"), Err(not_a_number("sleep:<ms>", "")));
    assert_eq!(hold_action("dance:1"), Err(Complaint::UnknownAction("dance:1".to_string())));
}

fn pointer_script(plan: &PointerPlan, scrolling: bool) -> Vec<DeviceStep> {
    let mut steps = Vec::new();
    while let Some(step) = pointer_step(plan, scrolling, steps.len() as u64) {
        steps.push(step);
    }
    assert_eq!(pointer_step(plan, scrolling, u64::MAX), None);
    steps
}

#[test]
fn a_pointer_moves_and_clicks_or_scrolls() {
    let plan = |click, steps| PointerPlan { output: "o".to_string(), x: 7, y: 9, click, steps };
    let mut moves = Vec::new();
    for x in [7, 8, 7, 8, 7, 8] {
        moves.push(DeviceStep::Motion { x, y: 9 });
        moves.push(DeviceStep::Pause(150));
    }
    let ending = |middle: Vec<DeviceStep>| {
        let mut all = moves.clone();
        all.extend(middle);
        all.push(DeviceStep::Pause(600));
        all
    };
    assert_eq!(pointer_script(&plan(false, 0), false), ending(vec![]));
    assert_eq!(
        pointer_script(&plan(true, 0), false),
        ending(vec![
            DeviceStep::Button { pressed: true },
            DeviceStep::Pause(120),
            DeviceStep::Button { pressed: false },
        ])
    );
    for (steps, dir) in [(2, 1), (-2, -1)] {
        let detent = DeviceStep::Detent { dir };
        let pause = DeviceStep::Pause(60);
        assert_eq!(
            pointer_script(&plan(false, steps), true),
            ending(vec![detent, pause, detent, pause])
        );
    }
    assert_eq!(pointer_script(&plan(false, 0), true), ending(vec![]));
}

#[test]
fn keys_are_tapped_with_modifiers_around_them() {
    let down = DeviceStep::Key { code: 15, pressed: true };
    let up = DeviceStep::Key { code: 15, pressed: false };
    let pause = DeviceStep::Pause;
    assert_eq!(tap_script(15), vec![down, pause(60), up]);
    assert_eq!(key_script(15, 0), vec![down, pause(60), up, pause(500)]);
    assert_eq!(
        key_script(15, 64),
        vec![
            DeviceStep::Modifiers(64),
            pause(40),
            down,
            pause(60),
            up,
            pause(40),
            DeviceStep::Modifiers(0),
            pause(500),
        ]
    );
}

#[test]
fn a_hold_is_undone_in_the_opposite_order() {
    let key = |pressed| DeviceStep::Key { code: 125, pressed };
    let mods = DeviceStep::Modifiers;
    let pause = DeviceStep::Pause;
    let plan = |code, mask| HoldPlan { code, mask, setup_ms: 0 };
    assert_eq!(
        press_script(plan(125, 64)),
        vec![mods(64), pause(40), key(true), pause(120)]
    );
    assert_eq!(
        release_script(plan(125, 64)),
        vec![key(false), pause(40), mods(0), pause(600)]
    );
    // Nothing is held, but there is a keyboard.
    assert_eq!(press_script(plan(0, 0)), vec![]);
    assert_eq!(release_script(plan(0, 0)), vec![pause(600)]);
}
