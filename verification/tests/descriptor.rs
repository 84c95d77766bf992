//! End-to-end behaviour of parsing, running and minifying descriptors.

use phonet::{Draft, FailKind, Message, Mode, Note, ParseErrorKind, PassStatus, TestDraft};

#[test]
fn end_to_end_example() {
    let d = Draft::from("~<>\n$_=[ptkaeiou]\n* Some note\n+^<_>+$\n?+kato\n?!x10").unwrap();
    assert_eq!(d.rules.len(), 1);
    assert!(d.rules[0].intent);
    assert_eq!(d.rules[0].pattern.as_str(), "^(?:[ptkaeiou])+$");
    assert_eq!(d.mode, Mode::Romanized);
    assert_eq!(d.test_count, 2);
    assert_eq!(d.messages.len(), 3);
    assert_eq!(d.messages[0], Message::Info(Note("Some note".to_string())));
    assert_eq!(
        d.messages[1],
        Message::Test(TestDraft { intent: true, word: "kato".to_string() })
    );
    assert_eq!(
        d.messages[2],
        Message::Test(TestDraft { intent: false, word: "x10".to_string() })
    );

    let outcome = d.run();
    assert_eq!(outcome.messages.len(), 3);
    assert_eq!(outcome.fail_count, 2);
    match &outcome.messages[1] {
        Message::Test(t) => {
            assert_eq!(t.word, "kato");
            assert!(t.intent);
            assert_eq!(t.status, PassStatus::Fail(FailKind::ShouldBeInvalid));
        }
        _ => panic!("expected a test message"),
    }
    match &outcome.messages[2] {
        Message::Test(t) => {
            assert_eq!(t.word, "x10");
            assert!(!t.intent);
            assert_eq!(
                t.status,
                PassStatus::Fail(FailKind::CustomReason(Note("Some note".to_string())))
            );
        }
        _ => panic!("expected a test message"),
    }
}

#[test]
fn one_test_statement_many_words() {
    let d = Draft::from("?+foo bar").unwrap();
    assert_eq!(d.test_count, 2);
    assert_eq!(
        d.messages,
        vec![
            Message::Test(TestDraft { intent: true, word: "foo".to_string() }),
            Message::Test(TestDraft { intent: true, word: "bar".to_string() }),
        ]
    );
}

#[test]
fn test_words_split_on_any_blank_run() {
    let d = Draft::from("?!  one \t two  ").unwrap();
    assert_eq!(
        d.messages,
        vec![
            Message::Test(TestDraft { intent: false, word: "one".to_string() }),
            Message::Test(TestDraft { intent: false, word: "two".to_string() }),
        ]
    );
}

#[test]
fn passing_tests_pass() {
    let d = Draft::from("$V=[aeiou]\n+^<V>+$\n?!aia ou\n?+xyz").unwrap();
    let outcome = d.run();
    assert_eq!(outcome.fail_count, 0);
    for msg in &outcome.messages {
        if let Message::Test(t) = msg {
            assert_eq!(t.status, PassStatus::Pass);
        }
    }
}

#[test]
fn first_violated_rule_reports() {
    let d = Draft::from("* first\n+^a+$\n* second\n!b\n?!b").unwrap();
    let outcome = d.run();
    assert_eq!(outcome.fail_count, 1);
    match &outcome.messages[2] {
        Message::Test(t) => {
            assert_eq!(
                t.status,
                PassStatus::Fail(FailKind::CustomReason(Note("first".to_string())))
            );
        }
        _ => panic!("expected a test message"),
    }
}

#[test]
fn no_reason_given_without_note() {
    let d = Draft::from("+^a+$\n?!b").unwrap();
    let outcome = d.run();
    assert_eq!(outcome.fail_count, 1);
    match &outcome.messages[0] {
        Message::Test(t) => {
            assert_eq!(t.status, PassStatus::Fail(FailKind::NoReasonGiven));
        }
        _ => panic!("expected a test message"),
    }
}

#[test]
fn backreference_through_class() {
    let d = Draft::from("$C=[ab]\n+^(<C>)\\1$\n?!aa bb\n?+ab").unwrap();
    let outcome = d.run();
    assert_eq!(outcome.fail_count, 0);
}

#[test]
fn broad_mode_delimiters() {
    let d = Draft::from("~//\n$V=[aeiou]\n+^/V/+$").unwrap();
    assert_eq!(d.mode, Mode::Broad);
    assert_eq!(d.rules[0].pattern.as_str(), "^(?:[aeiou])+$");
}

#[test]
fn narrow_mode_delimiters() {
    let d = Draft::from("~[]\n$V=x\n+^[V]+$").unwrap();
    assert_eq!(d.mode, Mode::Narrow);
    assert_eq!(d.rules[0].pattern.as_str(), "^(?:x)+$");
}

#[test]
fn mode_defaults_to_romanized() {
    let d = Draft::from("+a").unwrap();
    assert_eq!(d.mode, Mode::Romanized);
}

#[test]
fn comments_and_blanks_are_skipped() {
    let d = Draft::from("# comment\n\n   \n+a\n#?+word").unwrap();
    assert_eq!(d.rules.len(), 1);
    assert_eq!(d.test_count, 0);
}

#[test]
fn statements_split_on_semicolon() {
    let d = Draft::from(" ~<> ; $x=ab ; + ^<x>$ ; ?!ab").unwrap();
    assert_eq!(d.rules.len(), 1);
    assert_eq!(d.rules[0].pattern.as_str(), "^(?:ab)$");
    assert_eq!(d.test_count, 1);
}

#[test]
fn rule_patterns_lose_inner_spaces() {
    let d = Draft::from("+ ^ a b $ ").unwrap();
    assert_eq!(d.rules[0].pattern.as_str(), "^ab$");
}

#[test]
fn rule_patterns_lose_all_whitespace() {
    let d = Draft::from("+a\tb\u{A0}c\u{2003}d").unwrap();
    assert_eq!(d.raw_rules[0].pattern, "abcd");
    assert_eq!(d.rules[0].pattern.as_str(), "abcd");
}

#[test]
fn unicode_spaces_trim_and_split() {
    let d = Draft::from("\u{A0}+a\u{A0}\n?!\u{2003}one\u{A0}two\u{2028}three").unwrap();
    assert_eq!(d.raw_rules[0].pattern, "a");
    assert_eq!(
        d.messages,
        vec![
            Message::Test(TestDraft { intent: false, word: "one".to_string() }),
            Message::Test(TestDraft { intent: false, word: "two".to_string() }),
            Message::Test(TestDraft { intent: false, word: "three".to_string() }),
        ]
    );
}

#[test]
fn note_of_unicode_spaces_is_empty() {
    let e = Draft::from("*\u{A0}\u{2003}").unwrap_err();
    assert_eq!(e.kind, ParseErrorKind::EmptyNote);
}

#[test]
fn nested_class_expansion() {
    let d = Draft::from("$a=x\n$b=<a>y\n+<b>").unwrap();
    assert_eq!(d.rules[0].pattern.as_str(), "(?:(?:x)y)");
}

#[test]
fn unicode_class_name() {
    let d = Draft::from("$αβ=x\n+<αβ>").unwrap();
    assert_eq!(d.rules[0].pattern.as_str(), "(?:x)");
}

#[test]
fn validate_test_directly() {
    let d = Draft::from("$V=[aeiou]\n+^<V>+$").unwrap();
    assert_eq!(
        phonet::validate_test("aia", &d.rules),
        phonet::Validity::Valid
    );
    assert!(matches!(
        phonet::validate_test("xyz", &d.rules),
        phonet::Validity::Invalid(None)
    ));
}

#[test]
fn pass_status_predicates() {
    assert!(PassStatus::Pass.is_pass());
    assert!(!PassStatus::Pass.is_fail());
    assert!(PassStatus::Fail(FailKind::ShouldBeInvalid).is_fail());
    assert!(!PassStatus::Fail(FailKind::NoReasonGiven).is_pass());
}

#[test]
fn duplicate_class_fails_at_second_line() {
    let e = Draft::from("$x=a\n$x=b").unwrap_err();
    assert_eq!(e.kind, ParseErrorKind::ClassAlreadyExists("x".to_string()));
    assert_eq!(e.line, 2);
}

#[test]
fn duplicate_mode_fails_at_second_occurrence() {
    let e = Draft::from("~<>\n~//").unwrap_err();
    assert_eq!(e.kind, ParseErrorKind::ModeAlreadyDefined);
    assert_eq!(e.line, 2);
    let e2 = Draft::from("~<>;~<>").unwrap_err();
    assert_eq!(e2.kind, ParseErrorKind::ModeAlreadyDefined);
    assert_eq!(e2.line, 1);
}

#[test]
fn invalid_mode_specifier() {
    let e = Draft::from("~(x)").unwrap_err();
    assert_eq!(e.kind, ParseErrorKind::InvalidModeSpecifier);
    assert_eq!(e.line, 1);
}

#[test]
fn invalid_class_name() {
    let e = Draft::from("$a-b=x").unwrap_err();
    assert_eq!(e.kind, ParseErrorKind::InvalidClassName("a-b".to_string()));
    let e2 = Draft::from("$=x").unwrap_err();
    assert_eq!(e2.kind, ParseErrorKind::InvalidClassName(String::new()));
}

#[test]
fn class_without_pattern() {
    let e = Draft::from("$x").unwrap_err();
    assert_eq!(e.kind, ParseErrorKind::NoClassPattern("x".to_string()));
}

#[test]
fn invalid_test_intent() {
    let e = Draft::from("?word").unwrap_err();
    assert_eq!(e.kind, ParseErrorKind::InvalidTestIntent);
    let e2 = Draft::from("?").unwrap_err();
    assert_eq!(e2.kind, ParseErrorKind::InvalidTestIntent);
}

#[test]
fn empty_note() {
    let e = Draft::from("*   ").unwrap_err();
    assert_eq!(e.kind, ParseErrorKind::EmptyNote);
}

#[test]
fn unknown_statement_operator() {
    let e = Draft::from("abc").unwrap_err();
    assert_eq!(e.kind, ParseErrorKind::UnknownStatementOperator('a'));
}

#[test]
fn unknown_class_reference() {
    let e = Draft::from("+<x>").unwrap_err();
    assert_eq!(
        e.kind,
        ParseErrorKind::UnknownClassReference("x".to_string())
    );
    assert_eq!(e.line, 1);
}

#[test]
fn recursive_class_reference_direct() {
    let e = Draft::from("$a=<a>\n+<a>").unwrap_err();
    assert_eq!(
        e.kind,
        ParseErrorKind::RecursiveClassReference("a".to_string())
    );
    assert_eq!(e.line, 2);
}

#[test]
fn recursive_class_reference_chain() {
    let e = Draft::from("$a=<b>\n$b=<c>\n$c=<a>\n+<a>").unwrap_err();
    assert_eq!(
        e.kind,
        ParseErrorKind::RecursiveClassReference("a".to_string())
    );
    assert_eq!(e.line, 4);
}

#[test]
fn pattern_compile_failure() {
    let e = Draft::from("+(").unwrap_err();
    assert_eq!(e.kind, ParseErrorKind::PatternCompileFail("(".to_string()));
    assert_eq!(e.line, 1);
}

#[test]
fn error_lines_survive_blanks_and_comments() {
    let e = Draft::from("#c\n\n$x=a\n$x=b").unwrap_err();
    assert_eq!(e.line, 4);
}
