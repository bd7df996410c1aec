use svitek::commands::{escape_for_sway, nudge_pointer, switch_to, CommandLink, LinkStep};

#[test]
fn escapes_quotes_and_backslashes() {
    assert_eq!(escape_for_sway("2: web"), "2: web");
    assert_eq!(escape_for_sway(r#"say "hi""#), r#"say \"hi\""#);
    assert_eq!(escape_for_sway(r"back\slash"), r"back\\slash");
    assert_eq!(escape_for_sway("ěščř 🎉"), "ěščř 🎉");
}

#[test]
fn a_switch_goes_by_the_number_or_the_quoted_name() {
    assert_eq!(switch_to("2: web", Some(2)), "workspace number 2");
    assert_eq!(switch_to("10", Some(10)), "workspace number 10");
    assert_eq!(switch_to("0", Some(0)), "workspace number 0");
    assert_eq!(switch_to("x", Some(i32::MIN)), "workspace number -2147483648");
    assert_eq!(switch_to("web", None), "workspace --no-auto-back-and-forth \"web\"");
    assert_eq!(
        switch_to("a\"b", None),
        "workspace --no-auto-back-and-forth \"a\\\"b\""
    );
    assert_eq!(nudge_pointer(), "seat - cursor move 1 0; seat - cursor move -1 0");
}

#[test]
fn the_connection_is_opened_once_and_kept() {
    let mut link = CommandLink::new();
    assert_eq!(link.begin(), LinkStep::Connect);
    assert_eq!(link.connected(Ok(())), LinkStep::SendOnNew);
    assert_eq!(link.answered_on_new(Ok(vec![None])), LinkStep::Finished(Ok(())));
    for _ in 0..10 {
        assert_eq!(link.begin(), LinkStep::SendOnOpen);
        assert_eq!(link.answered_on_open(Ok(vec![None, None])), LinkStep::Finished(Ok(())));
    }
}

#[test]
fn a_stale_connection_is_replaced_once() {
    let mut link = CommandLink { open: true };
    assert_eq!(link.begin(), LinkStep::SendOnOpen);
    assert_eq!(link.answered_on_open(Err("broken pipe".to_string())), LinkStep::Connect);
    assert_eq!(link.connected(Ok(())), LinkStep::SendOnNew);
    assert_eq!(
        link.answered_on_new(Err("broken pipe".to_string())),
        LinkStep::Finished(Err("broken pipe".to_string()))
    );
    assert!(!link.open);
    assert_eq!(
        link.connected(Err("no socket".to_string())),
        LinkStep::Finished(Err("no socket".to_string()))
    );
}

#[test]
fn the_first_refusal_is_the_answer_and_keeps_the_connection() {
    let mut link = CommandLink::new();
    let answer = Ok(vec![None, Some("no".to_string()), Some("never".to_string())]);
    assert_eq!(link.answered_on_new(answer), LinkStep::Finished(Err("no".to_string())));
    assert!(link.open);
}
