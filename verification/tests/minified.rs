//! Behaviour of the minifier: canonical rendering and its fixed point on
//! class-inlined rule sets.

use phonet::Draft;

#[test]
fn minify_inlines_classes_and_drops_notes() {
    let d = Draft::from("$C=ab\n* note text\n+<C>+\n!x").unwrap();
    assert_eq!(d.minify(false).unwrap(), "~<>;+(?:ab)+;!x");
}

#[test]
fn minify_keeps_mode() {
    let d = Draft::from("~//\n$V=[aeiou]\n+^/V/+$").unwrap();
    assert_eq!(d.minify(false).unwrap(), "~//;+^(?:[aeiou])+$");
}

#[test]
fn minify_without_rules() {
    let d = Draft::from("# nothing but a comment").unwrap();
    assert_eq!(d.minify(false).unwrap(), "~<>;");
}

#[test]
fn minify_with_tests_groups_by_intent() {
    let d = Draft::from("+a\n?+x\n?!y\n?+z w").unwrap();
    assert_eq!(d.minify(true).unwrap(), "~<>;+a;?+x z w;?!y");
}

#[test]
fn minify_without_tests_flag_drops_tests() {
    let d = Draft::from("+a\n?+x\n?!y").unwrap();
    assert_eq!(d.minify(false).unwrap(), "~<>;+a");
}

#[test]
fn minify_omits_empty_test_groups() {
    let d = Draft::from("+a\n?!y").unwrap();
    assert_eq!(d.minify(true).unwrap(), "~<>;+a;?!y");
    let d2 = Draft::from("+a\n?+x").unwrap();
    assert_eq!(d2.minify(true).unwrap(), "~<>;+a;?+x");
}

#[test]
fn minify_reports_unknown_class_reference() {
    let mut d = Draft::from("+a").unwrap();
    d.raw_rules[0].pattern = "<x>".to_string();
    let e = d.minify(false).unwrap_err();
    assert_eq!(
        e.kind,
        phonet::ParseErrorKind::UnknownClassReference("x".to_string())
    );
    assert_eq!(e.line, 1);
}

#[test]
fn minify_twice_is_a_fixed_point() {
    let first = Draft::from("$C=[ab]\n* note\n+^<C>+$\n!x+\n?+ab ba\n?!xx")
        .unwrap()
        .minify(true)
        .unwrap();
    let second = Draft::from(&first).unwrap().minify(true).unwrap();
    assert_eq!(first, second);
    let third = Draft::from(&second).unwrap().minify(true).unwrap();
    assert_eq!(second, third);
}

#[test]
fn minified_text_reparses_equivalently() {
    let d = Draft::from("$C=[pt]\n+^<C>a+$\n?+pa ta\n?!xa").unwrap();
    let m = d.minify(true).unwrap();
    let d2 = Draft::from(&m).unwrap();
    assert_eq!(d2.rules.len(), d.rules.len());
    assert_eq!(d2.rules[0].pattern.as_str(), d.rules[0].pattern.as_str());
    assert_eq!(d2.test_count, d.test_count);
    let o1 = d.run();
    let o2 = d2.run();
    assert_eq!(o1.fail_count, o2.fail_count);
}
