use rustconn::automation::{
    prepare_rules_from_config, response_templates, AutomationSession, ExpectRule, PollStart,
    RuleCheck, EXPIRY_POLLS,
};

/// The pattern the built-in "Sudo Password" template ships with.
const SUDO_PATTERN: &str = r"\[sudo\] password for \w+:";

fn rule(id: u128, pattern: &str, response: &str) -> ExpectRule {
    ExpectRule {
        id,
        pattern: pattern.to_owned(),
        response: response.to_owned(),
        priority: 0,
        timeout_ms: None,
        enabled: true,
        one_shot: true,
    }
}

fn sudo_rule(response: &str) -> ExpectRule {
    ExpectRule {
        priority: 10,
        timeout_ms: Some(30_000),
        ..rule(7, SUDO_PATTERN, response)
    }
}

/// Fills one variable into the templates of the rules. A value with a line break is refused.
fn checks(rules: &Vec<ExpectRule>, variable: Option<(&str, &str)>) -> Vec<RuleCheck> {
    response_templates(rules)
        .iter()
        .zip(rules.iter())
        .map(|(template, rule)| {
            let substituted = match variable {
                Some((name, value)) => {
                    let reference = format!("${{{name}}}");
                    if template.contains(&reference) && value.contains('\n') {
                        None
                    } else {
                        Some(template.replace(&reference, value))
                    }
                }
                None => Some(template.clone()),
            };
            RuleCheck { pattern_valid: rule.pattern != "[unclosed", substituted }
        })
        .collect()
}

fn prepared(rules: Vec<ExpectRule>, variable: Option<(&str, &str)>) -> Vec<ExpectRule> {
    let checks = checks(&rules, variable);
    prepare_rules_from_config(&rules, checks)
}

#[test]
fn sudo_template_resolves_the_connection_password() {
    let prepared = prepared(vec![sudo_rule("${password}\n")], Some(("password", "hunter2")));

    assert_eq!(prepared.len(), 1);
    assert_eq!(prepared[0].response, "hunter2\n");
}

/// A password made entirely of shell metacharacters has to reach the prompt unchanged: nothing here
/// goes to a shell.
#[test]
fn a_password_full_of_shell_metacharacters_survives() {
    let prepared = prepared(
        vec![sudo_rule("${password}\n")],
        Some(("password", "a;b|c&d`e$f(g)h<i>j!k")),
    );

    assert_eq!(prepared.len(), 1);
    assert_eq!(prepared[0].response, "a;b|c&d`e$f(g)h<i>j!k\n");
}

/// Escapes are expanded on the template before substitution, so a backslash inside the resolved
/// value is not reinterpreted.
#[test]
fn a_backslash_in_the_password_is_not_treated_as_an_escape() {
    let prepared = prepared(vec![sudo_rule(r"${password}\n")], Some(("password", r"pa\nss")));

    assert_eq!(prepared.len(), 1);
    // The template's trailing `\n` became a real newline; the one inside the password did not.
    assert_eq!(prepared[0].response, "pa\\nss\n");
}

/// The template's own escape sequence still has to be expanded.
#[test]
fn the_template_escape_sequence_becomes_a_real_newline() {
    let prepared = prepared(vec![sudo_rule(r"yes\n")], None);

    assert_eq!(prepared.len(), 1);
    assert_eq!(prepared[0].response, "yes\n");
}

/// An undefined reference is kept verbatim rather than blanked.
#[test]
fn an_undefined_reference_is_left_in_place() {
    let prepared = prepared(vec![sudo_rule("${password}\n")], None);

    assert_eq!(prepared.len(), 1);
    assert_eq!(prepared[0].response, "${password}\n");
}

/// A value carrying a line break would submit the answer early, so the rule is dropped.
#[test]
fn a_rule_whose_value_contains_a_newline_is_dropped() {
    let prepared = prepared(
        vec![sudo_rule("${password}\n")],
        Some(("password", "first\nsecond")),
    );

    assert!(prepared.is_empty());
}

#[test]
fn disabled_rules_and_invalid_patterns_are_dropped() {
    let rules = vec![
        ExpectRule { enabled: false, ..sudo_rule("ok\n") },
        rule(8, "[unclosed", "ok\n"),
        sudo_rule("kept\n"),
    ];

    let prepared = prepared(rules, None);

    assert_eq!(prepared.len(), 1);
    assert_eq!(prepared[0].response, "kept\n");
}

/// Priority, timeout, id and the one-shot flag are carried through.
#[test]
fn rule_metadata_is_preserved() {
    let original = sudo_rule("${password}\n");
    let id = original.id;

    let prepared = prepared(vec![original], Some(("password", "hunter2")));

    assert_eq!(prepared.len(), 1);
    assert_eq!(prepared[0].id, id);
    assert_eq!(prepared[0].pattern, SUDO_PATTERN);
    assert_eq!(prepared[0].priority, 10);
    assert_eq!(prepared[0].timeout_ms, Some(30_000));
    assert!(prepared[0].one_shot);
}

#[test]
fn escape_sequences_are_expanded() {
    assert_eq!(AutomationSession::process_escapes(r"a\nb\rc\td\\e"), "a\nb\rc\td\\e");
    assert_eq!(AutomationSession::process_escapes(r"\x\"), r"\x\");
    assert_eq!(AutomationSession::process_escapes("plain"), "plain");
    assert_eq!(AutomationSession::process_escapes(""), "");
}

#[test]
fn a_one_shot_rule_answers_once_and_a_lasting_one_again() {
    let lasting = ExpectRule { one_shot: false, ..rule(1, "login:", "me\n") };
    let once = rule(2, "password:", "secret\n");
    let mut session = AutomationSession::new(vec![lasting, once], true, 5);
    assert_eq!(session.remaining_triggers(), 2);
    assert!(!session.is_complete());

    let screen = "login:\n\npassword:";
    let lines = session.lines_to_match(screen).unwrap();
    assert_eq!(lines, vec!["login:".to_string(), "password:".to_string()]);

    // The first rule matches twice and answers once.
    let answers = session.take_matches(screen, &vec![Some(0), Some(1), Some(0)]);
    let sent: Vec<&[u8]> = answers.iter().map(|a| a.as_slice()).collect();
    assert_eq!(sent, vec![b"me\n".as_slice(), b"secret\n".as_slice()]);
    assert_eq!(session.remaining_triggers(), 1);
    assert_eq!(session.rules[0].id, 1);

    // Nothing is matched again while the screen is the same.
    assert!(session.lines_to_match(screen).is_none());
    assert!(session.lines_to_match("more").is_some());
}

#[test]
fn of_two_rules_with_one_id_the_one_that_matched_answers() {
    let lasting = ExpectRule { one_shot: false, ..rule(7, "first:", "one\n") };
    let once = rule(7, "second:", "two\n");
    let other = rule(8, "third:", "three\n");
    let mut session = AutomationSession::new(vec![lasting, once, other], true, 5);

    // The second rule matches first; the id has then answered.
    let answers = session.take_matches("x", &vec![None, Some(1), Some(0), Some(1)]);
    let sent: Vec<&[u8]> = answers.iter().map(|a| a.as_slice()).collect();
    assert_eq!(sent, vec![b"two\n".as_slice()]);

    // It was a one-shot rule, so its id is used up.
    assert_eq!(session.remaining_triggers(), 1);
    assert_eq!(session.rules[0].id, 8);
    assert!(!session.created_at.contains_key(&7));
    assert!(session.created_at.contains_key(&8));
}

#[test]
fn rules_expire_and_polling_ends() {
    let mut session = AutomationSession::new(vec![rule(1, "a", "b"), rule(2, "c", "d")], true, 0);
    for n in 1..EXPIRY_POLLS {
        assert_eq!(session.begin_poll(), PollStart::Read, "poll {n}");
    }
    assert_eq!(session.begin_poll(), PollStart::CheckExpiry);
    session.remove_expired(&vec![2]);
    assert_eq!(session.remaining_triggers(), 1);
    assert_eq!(session.created_at.len(), 1);
    session.scrub_responses();
    assert!(session.is_complete());
    assert_eq!(session.begin_poll(), PollStart::Idle);
}

#[test]
fn rules_that_do_not_compile_are_not_tried() {
    let session = AutomationSession::new(vec![rule(1, "(", "b")], false, 0);
    assert!(session.is_complete());
}
