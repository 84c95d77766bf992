//! The parsed descriptor: ordered compiled rules, ordered messages, the
//! transcription mode, the cached test count, and the retained raw rule
//! and class data that minification renders from.

use vstd::prelude::*;

use crate::chars::{copy_range, skip_spaces, string_from_chars, strip_space_chars, trim_chars,
    trim_spec};
use crate::error::{Error, ErrorV, ParseErrorKind};
use crate::outcome::Outcome;
use crate::parse::{count_tests, init_state, parse_rules, parse_spec, parse_stmt, parse_stmts,
    split_ws, test_msgs, ParseStV};
use crate::replace::{lookup_class, names_view};
use crate::rx::is_word_name;
use crate::statements::{split_spec, split_statements, stmts_view, StatementV};
use crate::types::{classes_view, msgs_view, note_view, raws_view, rules_view, ClassDef, ClassV,
    Message, MessageV, Mode, Note, RawRule, RawRuleV, Rule, RuleV, TestDraft, TestDraftV};

verus! {

broadcast use crate::chars::lemma_find_char_bounds;

/// A parsed descriptor.
#[derive(Debug)]
pub struct Draft {
    /// The ordered compiled rules.
    pub rules: Vec<Rule>,
    /// The ordered messages: notes and declared tests, in source order.
    pub messages: Vec<Message<TestDraft>>,
    /// The transcription mode of the descriptor.
    pub mode: Mode,
    /// How many messages are declared tests.
    pub test_count: usize,
    /// The rules as declared, class references unexpanded; minification
    /// renders from these.
    pub raw_rules: Vec<RawRule>,
    /// The class table as declared: names and raw replacement patterns.
    pub raw_classes: Vec<ClassDef>,
}

/// Mathematical image of a [`Draft`].
pub ghost struct DraftV {
    pub rules: Seq<RuleV>,
    pub messages: Seq<MessageV<TestDraftV>>,
    pub mode: Mode,
    pub test_count: nat,
    pub raw_rules: Seq<RawRuleV>,
    pub raw_classes: Seq<ClassV>,
}

impl View for Draft {
    type V = DraftV;

    open spec fn view(&self) -> DraftV {
        DraftV {
            rules: rules_view(self.rules@),
            messages: msgs_view(self.messages@),
            mode: self.mode,
            test_count: self.test_count as nat,
            raw_rules: raws_view(self.raw_rules@),
            raw_classes: classes_view(self.raw_classes@),
        }
    }
}

/// The parse state the exec parser's variables stand for.
spec fn st_of(
    mode: Option<Mode>,
    classes: Seq<ClassDef>,
    raws: Seq<RawRule>,
    msgs: Seq<Message<TestDraft>>,
    last_note: Option<Note>,
) -> ParseStV {
    ParseStV {
        mode,
        classes: classes_view(classes),
        raw_rules: raws_view(raws),
        messages: msgs_view(msgs),
        last_note: note_view(last_note),
    }
}

impl Draft {
    /// Runs the drafted tests.
    pub fn run(self) -> (r: Outcome)
        ensures
            r@.messages == crate::outcome::spec_run_messages(self@.messages, self@.rules),
            r@.fail_count == crate::outcome::spec_fail_count(r@.messages),
            r.messages@.len() == self.messages@.len(),
    {
        Outcome::run(&self)
    }

    /// Renders the minified form of this draft: every rule's pattern fully
    /// class-inlined, classes and notes discarded, the declared test words
    /// appended in their two intent groups when `with_tests` is set.
    pub fn minify(&self, with_tests: bool) -> (r: Result<String, Error>)
        ensures
            match r {
                Ok(s) => crate::minify::spec_minify(
                    self@.mode,
                    self@.raw_classes,
                    self@.raw_rules,
                    self@.messages,
                    with_tests,
                ) == Ok::<Seq<char>, ErrorV>(s@),
                Err(e) => crate::minify::spec_minify(
                    self@.mode,
                    self@.raw_classes,
                    self@.raw_rules,
                    self@.messages,
                    with_tests,
                ) == Err::<Seq<char>, ErrorV>(e@),
            },
    {
        crate::minify::minify(
            self.mode,
            &self.raw_classes,
            &self.raw_rules,
            &self.messages,
            with_tests,
        )
    }

    /// Parses a whole descriptor, all or nothing: the result is exactly
    /// what the parse specification gives on this text, a draft or the
    /// first error with its 1-based line.
    #[verifier::rlimit(100)]
    pub fn from(file: &str) -> (r: Result<Draft, Error>)
        requires
            file@.len() < usize::MAX,
        ensures
            match r {
                Ok(d) => parse_spec(file@) == Ok::<DraftV, ErrorV>(d@),
                Err(e) => parse_spec(file@) == Err::<DraftV, ErrorV>(e@),
            },
    {
        let stmts = split_statements(file);
        let ghost sv = split_spec(file@);
        let mut mode: Option<Mode> = None;
        let mut classes: Vec<ClassDef> = Vec::new();
        let mut raw_rules: Vec<RawRule> = Vec::new();
        let mut messages: Vec<Message<TestDraft>> = Vec::new();
        let mut last_note: Option<Note> = None;
        let mut si: usize = 0;
        proof {
            assert(sv.skip(0) =~= sv);
            assert(classes_view(classes@) =~= Seq::<ClassV>::empty());
            assert(raws_view(raw_rules@) =~= Seq::<RawRuleV>::empty());
            assert(msgs_view(messages@) =~= Seq::<MessageV<TestDraftV>>::empty());
            assert(st_of(mode, classes@, raw_rules@, messages@, last_note) == init_state());
        }
        while si < stmts.len()
            invariant
                si <= stmts@.len(),
                sv == split_spec(file@),
                stmts_view(stmts@) == sv,
                parse_stmts(init_state(), sv) == parse_stmts(
                    st_of(mode, classes@, raw_rules@, messages@, last_note),
                    sv.skip(si as int),
                ),
            decreases stmts@.len() - si,
        {
            let ghost cur = st_of(mode, classes@, raw_rules@, messages@, last_note);
            let ghost stv = sv[si as int];
            let stmt = &stmts[si];
            proof {
                assert(stmts_view(stmts@)[si as int] == stmts@[si as int]@);
                assert(sv.skip(si as int)[0] == sv[si as int]);
                assert(sv.skip(si as int).drop_first() =~= sv.skip(si as int + 1));
            }
            let line = stmt.line;
            let t = trim_chars(&stmt.text);
            if t.len() == 0 {
                si += 1;
                continue ;
            }
            let op = t[0];
            let rest = copy_range(&t, 1, t.len());
            proof {
                assert(rest@ =~= trim_spec(stv.text).drop_first());
            }
            match op {
                '#' => {},
                '~' => {
                    if mode.is_some() {
                        let e = Error { kind: ParseErrorKind::ModeAlreadyDefined, line };
                        proof {
                            assert(parse_stmts(init_state(), sv) == Err::<ParseStV, ErrorV>(e@));
                        }
                        return Err(e);
                    }
                    let mut k: usize = 0;
                    proof {
                        assert(rest@.skip(0) =~= rest@);
                    }
                    while k < rest.len() && rest[k] == ' '
                        invariant
                            k <= rest@.len(),
                            skip_spaces(rest@) == skip_spaces(rest@.skip(k as int)),
                        decreases rest@.len() - k,
                    {
                        proof {
                            assert(rest@.skip(k as int).drop_first() =~= rest@.skip(k as int + 1));
                        }
                        k += 1;
                    }
                    proof {
                        if k < rest@.len() {
                            assert(skip_spaces(rest@.skip(k as int)) == rest@.skip(k as int));
                        } else {
                            assert(rest@.skip(k as int) =~= Seq::<char>::empty());
                        }
                    }
                    let a = if k < rest.len() {
                        Some(rest[k])
                    } else {
                        None
                    };
                    let b = if k + 1 < rest.len() {
                        Some(rest[rest.len() - 1])
                    } else {
                        None
                    };
                    proof {
                        let rr = skip_spaces(rest@);
                        assert(rr == rest@.skip(k as int));
                        if k < rest@.len() {
                            assert(rr[0] == rest@[k as int]);
                            if k + 1 < rest@.len() {
                                assert(rr.last() == rest@[rest@.len() - 1]);
                            }
                        }
                    }
                    match Mode::from_options(a, b) {
                        Some(m) => {
                            mode = Some(m);
                        },
                        None => {
                            let e = Error { kind: ParseErrorKind::InvalidModeSpecifier, line };
                            proof {
                                assert(parse_stmts(init_state(), sv) == Err::<ParseStV, ErrorV>(
                                    e@,
                                ));
                            }
                            return Err(e);
                        },
                    }
                },
                '$' => {
                    let eq = crate::chars::find_char_from(&rest, '=', 0);
                    proof {
                        assert(rest@.skip(0) =~= rest@);
                    }
                    let name_raw = copy_range(&rest, 0, eq);
                    let name_t = trim_chars(&name_raw);
                    let name = string_from_chars(&name_t);
                    if !is_word_name(name.as_str()) {
                        let e = Error { kind: ParseErrorKind::InvalidClassName(name), line };
                        proof {
                            assert(parse_stmts(init_state(), sv) == Err::<ParseStV, ErrorV>(e@));
                        }
                        return Err(e);
                    }
                    if lookup_class(&classes, &name).is_some() {
                        let e = Error { kind: ParseErrorKind::ClassAlreadyExists(name), line };
                        proof {
                            assert(parse_stmts(init_state(), sv) == Err::<ParseStV, ErrorV>(e@));
                        }
                        return Err(e);
                    }
                    if eq == rest.len() {
                        let e = Error { kind: ParseErrorKind::NoClassPattern(name), line };
                        proof {
                            assert(parse_stmts(init_state(), sv) == Err::<ParseStV, ErrorV>(e@));
                        }
                        return Err(e);
                    }
                    let eq2 = crate::chars::find_char_from(&rest, '=', eq + 1);
                    let pat_raw = copy_range(&rest, eq + 1, eq2);
                    let pat_t = trim_chars(&pat_raw);
                    let pattern = string_from_chars(&pat_t);
                    let ghost pre = classes@;
                    classes.push(ClassDef { name, pattern });
                    proof {
                        let rest2 = rest@.skip(eq as int + 1);
                        assert(rest2.subrange(0, eq2 - eq - 1) =~= rest@.subrange(
                            eq as int + 1,
                            eq2 as int,
                        ));
                        assert(classes_view(classes@) =~= classes_view(pre).push(
                            classes@.last()@,
                        ));
                    }
                },
                '+' | '!' => {
                    let intent = op == '+';
                    let stripped = strip_space_chars(&rest);
                    let note = match &last_note {
                        Some(n) => Some(Note(n.0.clone())),
                        None => None,
                    };
                    let ghost pre = raw_rules@;
                    raw_rules.push(
                        RawRule { intent, pattern: string_from_chars(&stripped), note, line },
                    );
                    proof {
                        assert(raws_view(raw_rules@) =~= raws_view(pre).push(
                            raw_rules@.last()@,
                        ));
                    }
                },
                '?' => {
                    let mut k: usize = 0;
                    proof {
                        assert(rest@.skip(0) =~= rest@);
                    }
                    while k < rest.len() && rest[k] == ' '
                        invariant
                            k <= rest@.len(),
                            skip_spaces(rest@) == skip_spaces(rest@.skip(k as int)),
                        decreases rest@.len() - k,
                    {
                        proof {
                            assert(rest@.skip(k as int).drop_first() =~= rest@.skip(k as int + 1));
                        }
                        k += 1;
                    }
                    proof {
                        if k < rest@.len() {
                            assert(skip_spaces(rest@.skip(k as int)) == rest@.skip(k as int));
                        } else {
                            assert(rest@.skip(k as int) =~= Seq::<char>::empty());
                        }
                    }
                    if k == rest.len() {
                        let e = Error { kind: ParseErrorKind::InvalidTestIntent, line };
                        proof {
                            assert(parse_stmts(init_state(), sv) == Err::<ParseStV, ErrorV>(e@));
                        }
                        return Err(e);
                    }
                    let c0 = rest[k];
                    proof {
                        assert(skip_spaces(rest@)[0] == rest@[k as int]);
                    }
                    if c0 != '+' && c0 != '!' {
                        let e = Error { kind: ParseErrorKind::InvalidTestIntent, line };
                        proof {
                            assert(parse_stmts(init_state(), sv) == Err::<ParseStV, ErrorV>(e@));
                        }
                        return Err(e);
                    }
                    let intent = c0 == '+';
                    let words = split_ws(&rest, k + 1);
                    proof {
                        assert(skip_spaces(rest@).drop_first() =~= rest@.skip(k as int + 1));
                    }
                    let ghost base = msgs_view(messages@);
                    let ghost wv = names_view(words@);
                    let mut wi: usize = 0;
                    proof {
                        assert(base + test_msgs(wv.subrange(0, 0), intent) =~= base);
                    }
                    while wi < words.len()
                        invariant
                            wi <= words@.len(),
                            wv == names_view(words@),
                            msgs_view(messages@) == base + test_msgs(wv.subrange(0, wi as int), intent),
                        decreases words@.len() - wi,
                    {
                        let ghost pre = messages@;
                        messages.push(
                            Message::Test(TestDraft { intent, word: words[wi].clone() }),
                        );
                        proof {
                            assert(wv[wi as int] == words@[wi as int]@);
                            assert(msgs_view(messages@) =~= msgs_view(pre).push(
                                messages@.last()@,
                            ));
                            assert(wv.subrange(0, wi as int + 1) =~= wv.subrange(
                                0,
                                wi as int,
                            ).push(wv[wi as int]));
                            assert(test_msgs(wv.subrange(0, wi as int + 1), intent) =~= test_msgs(
                                wv.subrange(0, wi as int),
                                intent,
                            ).push(MessageV::Test(TestDraftV { intent, word: wv[wi as int] })));
                            assert(base + test_msgs(wv.subrange(0, wi as int + 1), intent) =~= (base
                                + test_msgs(wv.subrange(0, wi as int), intent)).push(
                                MessageV::Test(TestDraftV { intent, word: wv[wi as int] }),
                            ));
                        }
                        wi += 1;
                    }
                    proof {
                        assert(wv.subrange(0, wv.len() as int) =~= wv);
                    }
                },
                '*' => {
                    let note_t = trim_chars(&rest);
                    if note_t.len() == 0 {
                        let e = Error { kind: ParseErrorKind::EmptyNote, line };
                        proof {
                            assert(parse_stmts(init_state(), sv) == Err::<ParseStV, ErrorV>(e@));
                        }
                        return Err(e);
                    }
                    let text = string_from_chars(&note_t);
                    let ghost pre = messages@;
                    messages.push(Message::Info(Note(text.clone())));
                    last_note = Some(Note(text));
                    proof {
                        assert(msgs_view(messages@) =~= msgs_view(pre).push(messages@.last()@));
                    }
                },
                _ => {
                    let e = Error { kind: ParseErrorKind::UnknownStatementOperator(op), line };
                    proof {
                        assert(parse_stmts(init_state(), sv) == Err::<ParseStV, ErrorV>(e@));
                    }
                    return Err(e);
                },
            }
            proof {
                assert(parse_stmt(cur, stv.text, stv.line) == Ok::<ParseStV, ErrorV>(
                    st_of(mode, classes@, raw_rules@, messages@, last_note),
                ));
            }
            si += 1;
        }
        proof {
            assert(sv.skip(sv.len() as int) =~= Seq::<StatementV>::empty());
        }
        let mode_final = match mode {
            Some(m) => m,
            None => Mode::Romanized,
        };
        let rules = match parse_rules(&raw_rules, &classes, mode_final) {
            Err(e) => {
                return Err(e);
            },
            Ok(rules) => rules,
        };
        let mut test_count: usize = 0;
        let mut mi: usize = 0;
        proof {
            assert(msgs_view(messages@).subrange(0, 0) =~= Seq::<MessageV<TestDraftV>>::empty());
        }
        while mi < messages.len()
            invariant
                mi <= messages@.len(),
                test_count <= mi,
                test_count as nat == count_tests(msgs_view(messages@).subrange(0, mi as int)),
            decreases messages@.len() - mi,
        {
            if messages[mi].is_test() {
                test_count += 1;
            }
            proof {
                let mv = msgs_view(messages@);
                assert(mv[mi as int] == messages@[mi as int]@);
                assert(mv.subrange(0, mi as int + 1).drop_last() =~= mv.subrange(0, mi as int));
                assert(mv.subrange(0, mi as int + 1).last() == mv[mi as int]);
            }
            mi += 1;
        }
        proof {
            assert(msgs_view(messages@).subrange(0, messages@.len() as int) =~= msgs_view(
                messages@,
            ));
        }
        Ok(
            Draft {
                rules,
                messages,
                mode: mode_final,
                test_count,
                raw_rules,
                raw_classes: classes,
            },
        )
    }
}

} // verus!
