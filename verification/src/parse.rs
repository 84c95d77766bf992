//! The descriptor parser's specification and the rule compiler.
//!
//! Parsing is a single forward pass over the statements, dispatching on
//! the leading operator character and growing a parse state; the first
//! error aborts the whole parse with the offending 1-based line.  The
//! rule compiler then expands every raw rule against the class table and
//! compiles the expansion.

use vstd::prelude::*;

use crate::chars::{find_char, skip_spaces, str_chars, string_from_chars, strip_spaces, trim_spec};
use crate::error::{Error, ErrorV, ParseErrorKind, ParseErrorKindV};
use crate::replace::{class_lookup, names_view, replace_classes, spec_replace};
use crate::rx::{regex_compile, regex_ok, regex_source, word_chars};
use crate::statements::{split_spec, StatementV};
use crate::types::{classes_view, raws_view, rules_view, ClassV, MessageV, Mode, RawRuleV, Rule,
    RawRule, ClassDef, RuleV, TestDraftV};
use crate::draft::DraftV;

verus! {

broadcast use crate::chars::lemma_find_char_bounds;

/// The parser's state between statements.
pub ghost struct ParseStV {
    pub mode: Option<Mode>,
    pub classes: Seq<ClassV>,
    pub raw_rules: Seq<RawRuleV>,
    pub messages: Seq<MessageV<TestDraftV>>,
    pub last_note: Option<Seq<char>>,
}

/// The state before any statement.
pub open spec fn init_state() -> ParseStV {
    ParseStV {
        mode: None,
        classes: Seq::empty(),
        raw_rules: Seq::empty(),
        messages: Seq::empty(),
        last_note: None,
    }
}

/// The whitespace-separated tokens of the remaining text, with `cur` the
/// token gathered so far.
pub open spec fn ws_tokens_rec(s: Seq<char>, cur: Seq<char>) -> Seq<Seq<char>>
    decreases s.len(),
{
    if s.len() == 0 {
        if cur.len() > 0 {
            seq![cur]
        } else {
            Seq::empty()
        }
    } else if is_space_char_local(s[0]) {
        (if cur.len() > 0 {
            seq![cur]
        } else {
            Seq::empty()
        }) + ws_tokens_rec(s.drop_first(), Seq::empty())
    } else {
        ws_tokens_rec(s.drop_first(), cur.push(s[0]))
    }
}

/// Same blank-space characters as the rest of the crate.
pub open spec fn is_space_char_local(c: char) -> bool {
    crate::chars::is_space_char(c)
}

/// One declared-test message per word, all with the same declared intent.
pub open spec fn test_msgs(words: Seq<Seq<char>>, intent: bool) -> Seq<MessageV<TestDraftV>> {
    words.map_values(|w: Seq<char>| MessageV::Test(TestDraftV { intent, word: w }))
}

/// A mode declaration: at most one per descriptor; after leading plain
/// spaces, the first and the last remaining character select the pair.
pub open spec fn parse_mode_stmt(st: ParseStV, rest: Seq<char>, line: nat) -> Result<
    ParseStV,
    ErrorV,
> {
    if st.mode is Some {
        Err(ErrorV { kind: ParseErrorKindV::ModeAlreadyDefined, line })
    } else {
        let r = skip_spaces(rest);
        let a = if r.len() > 0 {
            Some(r[0])
        } else {
            None
        };
        let b = if r.len() > 1 {
            Some(r.last())
        } else {
            None
        };
        match Mode::spec_from_options(a, b) {
            Some(m) => Ok(
                ParseStV {
                    mode: Some(m),
                    classes: st.classes,
                    raw_rules: st.raw_rules,
                    messages: st.messages,
                    last_note: st.last_note,
                },
            ),
            None => Err(ErrorV { kind: ParseErrorKindV::InvalidModeSpecifier, line }),
        }
    }
}

/// A class definition `name=pattern`: the name is the trimmed text before
/// the first `=` and must be word characters and fresh; the pattern is
/// the trimmed text between the first and the second `=`, and must be
/// there.
pub open spec fn parse_class_stmt(st: ParseStV, rest: Seq<char>, line: nat) -> Result<
    ParseStV,
    ErrorV,
> {
    let eq = find_char(rest, '=');
    let name = trim_spec(rest.subrange(0, eq));
    if !word_chars(name) {
        Err(ErrorV { kind: ParseErrorKindV::InvalidClassName(name), line })
    } else if class_lookup(st.classes, name) is Some {
        Err(ErrorV { kind: ParseErrorKindV::ClassAlreadyExists(name), line })
    } else if eq == rest.len() {
        Err(ErrorV { kind: ParseErrorKindV::NoClassPattern(name), line })
    } else {
        let rest2 = rest.skip(eq + 1);
        let pattern = trim_spec(rest2.subrange(0, find_char(rest2, '=')));
        Ok(
            ParseStV {
                mode: st.mode,
                classes: st.classes.push(ClassV { name, pattern }),
                raw_rules: st.raw_rules,
                messages: st.messages,
                last_note: st.last_note,
            },
        )
    }
}

/// A test declaration: after leading plain spaces the intent character
/// (`+` = expected invalid, `!` = expected valid), then one independent
/// test message per whitespace-separated word.
pub open spec fn parse_test_stmt(st: ParseStV, rest: Seq<char>, line: nat) -> Result<
    ParseStV,
    ErrorV,
> {
    let r = skip_spaces(rest);
    if r.len() > 0 && (r[0] == '+' || r[0] == '!') {
        Ok(
            ParseStV {
                mode: st.mode,
                classes: st.classes,
                raw_rules: st.raw_rules,
                messages: st.messages + test_msgs(
                    ws_tokens_rec(r.drop_first(), Seq::empty()),
                    r[0] == '+',
                ),
                last_note: st.last_note,
            },
        )
    } else {
        Err(ErrorV { kind: ParseErrorKindV::InvalidTestIntent, line })
    }
}

/// A note: trimmed, not blank; becomes an informational message and the
/// current note for the rules after it.
pub open spec fn parse_note_stmt(st: ParseStV, rest: Seq<char>, line: nat) -> Result<
    ParseStV,
    ErrorV,
> {
    let note = trim_spec(rest);
    if note.len() == 0 {
        Err(ErrorV { kind: ParseErrorKindV::EmptyNote, line })
    } else {
        Ok(
            ParseStV {
                mode: st.mode,
                classes: st.classes,
                raw_rules: st.raw_rules,
                messages: st.messages.push(MessageV::Info(note)),
                last_note: Some(note),
            },
        )
    }
}

/// One statement's effect on the parse state: blank and comment
/// statements change nothing, the leading operator selects the form, any
/// other first character is an unknown operator.
pub open spec fn parse_stmt(st: ParseStV, text: Seq<char>, line: nat) -> Result<ParseStV, ErrorV> {
    let t = trim_spec(text);
    if t.len() == 0 {
        Ok(st)
    } else {
        let op = t[0];
        let rest = t.drop_first();
        if op == '#' {
            Ok(st)
        } else if op == '~' {
            parse_mode_stmt(st, rest, line)
        } else if op == '$' {
            parse_class_stmt(st, rest, line)
        } else if op == '+' || op == '!' {
            Ok(
                ParseStV {
                    mode: st.mode,
                    classes: st.classes,
                    raw_rules: st.raw_rules.push(
                        RawRuleV {
                            intent: op == '+',
                            pattern: strip_spaces(rest),
                            note: st.last_note,
                            line,
                        },
                    ),
                    messages: st.messages,
                    last_note: st.last_note,
                },
            )
        } else if op == '?' {
            parse_test_stmt(st, rest, line)
        } else if op == '*' {
            parse_note_stmt(st, rest, line)
        } else {
            Err(ErrorV { kind: ParseErrorKindV::UnknownStatementOperator(op), line })
        }
    }
}

/// The statements folded in order over the parse state; the first error
/// aborts the fold.
pub open spec fn parse_stmts(st: ParseStV, stmts: Seq<StatementV>) -> Result<ParseStV, ErrorV>
    decreases stmts.len(),
{
    if stmts.len() == 0 {
        Ok(st)
    } else {
        match parse_stmt(st, stmts[0].text, stmts[0].line) {
            Err(e) => Err(e),
            Ok(st2) => parse_stmts(st2, stmts.drop_first()),
        }
    }
}

/// How many messages are declared tests.
pub open spec fn count_tests(msgs: Seq<MessageV<TestDraftV>>) -> nat
    decreases msgs.len(),
{
    if msgs.len() == 0 {
        0
    } else {
        count_tests(msgs.drop_last()) + (if msgs.last() is Test {
            1nat
        } else {
            0nat
        })
    }
}

/// Each raw rule's pattern expanded and compiled, in order: an expansion
/// error or a pattern the engine refuses aborts at that rule's source
/// line, the latter carrying the expanded text.
pub open spec fn spec_parse_rules(raws: Seq<RawRuleV>, classes: Seq<ClassV>, mode: Mode) -> Result<
    Seq<RuleV>,
    ErrorV,
>
    decreases raws.len(),
{
    if raws.len() == 0 {
        Ok(Seq::empty())
    } else {
        let r = raws[0];
        match spec_replace(r.pattern, classes, mode) {
            Err(k) => Err(ErrorV { kind: k, line: r.line }),
            Ok(expanded) => {
                if !regex_ok(expanded) {
                    Err(
                        ErrorV {
                            kind: ParseErrorKindV::PatternCompileFail(expanded),
                            line: r.line,
                        },
                    )
                } else {
                    match spec_parse_rules(raws.drop_first(), classes, mode) {
                        Err(e) => Err(e),
                        Ok(rules) => Ok(
                            seq![RuleV { intent: r.intent, pattern: expanded, note: r.note }]
                                + rules,
                        ),
                    }
                }
            },
        }
    }
}

/// The parse of a whole descriptor: statements folded in order, the mode
/// defaulted if never declared, the raw rules expanded and compiled, and
/// the test count taken from the finished message list.
pub open spec fn parse_spec(text: Seq<char>) -> Result<DraftV, ErrorV> {
    match parse_stmts(init_state(), split_spec(text)) {
        Err(e) => Err(e),
        Ok(st) => {
            let mode = match st.mode {
                Some(m) => m,
                None => Mode::Romanized,
            };
            match spec_parse_rules(st.raw_rules, st.classes, mode) {
                Err(e) => Err(e),
                Ok(rules) => Ok(
                    DraftV {
                        rules,
                        messages: st.messages,
                        mode,
                        test_count: count_tests(st.messages),
                        raw_rules: st.raw_rules,
                        raw_classes: st.classes,
                    },
                ),
            }
        },
    }
}

/// Splits the text at or after `from` into whitespace-separated words.
pub(crate) fn split_ws(v: &Vec<char>, from: usize) -> (r: Vec<String>)
    requires
        from <= v@.len(),
    ensures
        names_view(r@) == ws_tokens_rec(v@.skip(from as int), Seq::empty()),
{
    let mut out: Vec<String> = Vec::new();
    let mut cur: Vec<char> = Vec::new();
    let mut i: usize = from;
    proof {
        assert(names_view(out@) =~= Seq::<Seq<char>>::empty());
    }
    while i < v.len()
        invariant
            from <= i <= v@.len(),
            ws_tokens_rec(v@.skip(from as int), Seq::empty()) == names_view(out@) + ws_tokens_rec(
                v@.skip(i as int),
                cur@,
            ),
        decreases v@.len() - i,
    {
        let ghost cur_old = cur@;
        let ghost out_old = out@;
        let c = v[i];
        proof {
            assert(v@.skip(i as int)[0] == v@[i as int]);
            assert(v@.skip(i as int).drop_first() =~= v@.skip(i as int + 1));
        }
        if crate::chars::is_space(c) {
            let ghost emit = if cur_old.len() > 0 {
                seq![cur_old]
            } else {
                Seq::<Seq<char>>::empty()
            };
            if !cur.is_empty() {
                out.push(string_from_chars(&cur));
                cur = Vec::new();
            }
            proof {
                let tail = ws_tokens_rec(v@.skip(i as int + 1), Seq::<char>::empty());
                assert(ws_tokens_rec(v@.skip(i as int), cur_old) == emit + tail);
                assert(names_view(out@) =~= names_view(out_old) + emit);
                assert((names_view(out_old) + emit) + tail =~= names_view(out_old) + (emit
                    + tail));
                assert(cur@ =~= Seq::<char>::empty());
            }
        } else {
            cur.push(c);
            proof {
                assert(ws_tokens_rec(v@.skip(i as int), cur_old) == ws_tokens_rec(
                    v@.skip(i as int + 1),
                    cur@,
                ));
            }
        }
        i += 1;
    }
    proof {
        assert(v@.skip(v@.len() as int) =~= Seq::<char>::empty());
    }
    let ghost pre = out@;
    let ghost emit = if cur@.len() > 0 {
        seq![cur@]
    } else {
        Seq::<Seq<char>>::empty()
    };
    if !cur.is_empty() {
        out.push(string_from_chars(&cur));
        proof {
            assert(names_view(out@) =~= names_view(pre) + emit);
        }
    } else {
        proof {
            assert(names_view(out@) =~= names_view(pre) + emit);
        }
    }
    out
}

/// Expands and compiles every raw rule against the class table, in order.
pub(crate) fn parse_rules(raws: &Vec<RawRule>, classes: &Vec<ClassDef>, mode: Mode) -> (r: Result<
    Vec<Rule>,
    Error,
>)
    ensures
        match r {
            Ok(rules) => spec_parse_rules(raws_view(raws@), classes_view(classes@), mode) == Ok::<
                Seq<RuleV>,
                ErrorV,
            >(rules_view(rules@)),
            Err(e) => spec_parse_rules(raws_view(raws@), classes_view(classes@), mode) == Err::<
                Seq<RuleV>,
                ErrorV,
            >(e@),
        },
{
    let ghost rv = raws_view(raws@);
    let ghost cls = classes_view(classes@);
    let mut out: Vec<Rule> = Vec::new();
    let mut i: usize = 0;
    proof {
        assert(rv.skip(0) =~= rv);
        assert(rules_view(out@) =~= Seq::<RuleV>::empty());
    }
    while i < raws.len()
        invariant
            i <= raws@.len(),
            rv == raws_view(raws@),
            cls == classes_view(classes@),
            spec_parse_rules(rv, cls, mode) == (match spec_parse_rules(
                rv.skip(i as int),
                cls,
                mode,
            ) {
                Ok(rest) => Ok::<Seq<RuleV>, ErrorV>(rules_view(out@) + rest),
                Err(e) => Err::<Seq<RuleV>, ErrorV>(e),
            }),
        decreases raws@.len() - i,
    {
        let raw = &raws[i];
        proof {
            assert(rv.skip(i as int)[0] == rv[i as int]);
            assert(rv[i as int] == raws@[i as int]@);
            assert(rv.skip(i as int).drop_first() =~= rv.skip(i as int + 1));
        }
        let pattern_chars = str_chars(raw.pattern.as_str());
        match replace_classes(&pattern_chars, classes, mode) {
            Err(k) => {
                return Err(Error { kind: k, line: raw.line });
            },
            Ok(expanded) => {
                let expanded_text = string_from_chars(&expanded);
                match regex_compile(expanded_text.as_str()) {
                    None => {
                        return Err(
                            Error {
                                kind: ParseErrorKind::PatternCompileFail(expanded_text),
                                line: raw.line,
                            },
                        );
                    },
                    Some(re) => {
                        let note = match &raw.note {
                            Some(n) => Some(crate::types::Note(n.0.clone())),
                            None => None,
                        };
                        let ghost pre = out@;
                        out.push(Rule { intent: raw.intent, pattern: re, note });
                        proof {
                            assert(rules_view(out@) =~= rules_view(pre).push(out@.last()@));
                            match spec_parse_rules(rv.skip(i as int + 1), cls, mode) {
                                Ok(rest) => {
                                    assert((rules_view(pre).push(out@.last()@)) + rest =~=
                                        rules_view(pre) + (seq![out@.last()@] + rest));
                                },
                                Err(_) => {},
                            }
                        }
                    },
                }
            },
        }
        i += 1;
    }
    proof {
        assert(rv.skip(rv.len() as int) =~= Seq::<RawRuleV>::empty());
        assert(rules_view(out@) + Seq::<RuleV>::empty() =~= rules_view(out@));
    }
    Ok(out)
}

} // verus!
