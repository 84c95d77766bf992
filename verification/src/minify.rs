//! The minifier: renders the parsed rule set back to a compact canonical
//! string `~{mode};{intent}{expanded-pattern};...`, every pattern fully
//! class-inlined, classes and notes intentionally discarded; the declared
//! test words follow in their two intent groups when asked for, each group
//! only if non-empty.

use vstd::prelude::*;

use crate::chars::{append_chars, str_chars, string_from_chars};
use crate::error::{Error, ErrorV, ParseErrorKind, ParseErrorKindV};
use crate::replace::{names_view, replace_classes, spec_replace};
use crate::types::{classes_view, msgs_view, raws_view, ClassDef, ClassV, Message, MessageV, Mode,
    RawRule, RawRuleV, TestDraft, TestDraftV};

verus! {

/// The two delimiter characters that name the mode in minified text.
pub open spec fn mode_str(m: Mode) -> Seq<char> {
    seq![m.spec_open(), m.spec_close()]
}

/// The parts joined with `sep` between each two.
pub open spec fn join(parts: Seq<Seq<char>>, sep: char) -> Seq<char>
    decreases parts.len(),
{
    if parts.len() == 0 {
        Seq::empty()
    } else if parts.len() == 1 {
        parts[0]
    } else {
        join(parts.drop_last(), sep) + seq![sep] + parts.last()
    }
}

/// The declared test words in order, split into the expected-invalid and
/// the expected-valid group.
pub open spec fn spec_minify_tests(msgs: Seq<MessageV<TestDraftV>>) -> (Seq<Seq<char>>, Seq<
    Seq<char>,
>)
    decreases msgs.len(),
{
    if msgs.len() == 0 {
        (Seq::empty(), Seq::empty())
    } else {
        let (p, n) = spec_minify_tests(msgs.drop_last());
        match msgs.last() {
            MessageV::Test(t) => if t.intent {
                (p.push(t.word), n)
            } else {
                (p, n.push(t.word))
            },
            MessageV::Info(_) => (p, n),
        }
    }
}

/// Each raw rule rendered as its intent character followed by its fully
/// expanded pattern; an expansion error aborts at that rule's line.
pub open spec fn spec_minify_rules(raws: Seq<RawRuleV>, classes: Seq<ClassV>, mode: Mode) -> Result<
    Seq<Seq<char>>,
    ErrorV,
>
    decreases raws.len(),
{
    if raws.len() == 0 {
        Ok(Seq::empty())
    } else {
        let r = raws[0];
        match spec_replace(r.pattern, classes, mode) {
            Err(k) => Err(ErrorV { kind: k, line: r.line }),
            Ok(exp) => match spec_minify_rules(raws.drop_first(), classes, mode) {
                Err(e) => Err(e),
                Ok(rest) => Ok(
                    seq![
                        seq![
                            if r.intent {
                                '+'
                            } else {
                                '!'
                            },
                        ] + exp,
                    ] + rest,
                ),
            },
        }
    }
}

/// The whole minified text: the mode, the rendered rules `;`-joined, and,
/// when `with_tests` is set, each non-empty test group.
pub open spec fn spec_minify(
    mode: Mode,
    classes: Seq<ClassV>,
    raws: Seq<RawRuleV>,
    msgs: Seq<MessageV<TestDraftV>>,
    with_tests: bool,
) -> Result<Seq<char>, ErrorV> {
    match spec_minify_rules(raws, classes, mode) {
        Err(e) => Err(e),
        Ok(rules) => {
            let head = seq!['~'] + mode_str(mode) + seq![';'] + join(rules, ';');
            let (pos, neg) = spec_minify_tests(msgs);
            let with_pos = if with_tests && pos.len() > 0 {
                head + seq![';', '?', '+'] + join(pos, ' ')
            } else {
                head
            };
            Ok(
                if with_tests && neg.len() > 0 {
                    with_pos + seq![';', '?', '!'] + join(neg, ' ')
                } else {
                    with_pos
                },
            )
        },
    }
}

/// Splits the declared test words into their two intent groups.
pub(crate) fn minify_tests(messages: &Vec<Message<TestDraft>>) -> (r: (Vec<String>, Vec<String>))
    ensures
        names_view(r.0@) == spec_minify_tests(msgs_view(messages@)).0,
        names_view(r.1@) == spec_minify_tests(msgs_view(messages@)).1,
{
    let ghost mv = msgs_view(messages@);
    let mut positive: Vec<String> = Vec::new();
    let mut negative: Vec<String> = Vec::new();
    let mut i: usize = 0;
    proof {
        assert(mv.subrange(0, 0) =~= Seq::<MessageV<TestDraftV>>::empty());
        assert(names_view(positive@) =~= Seq::<Seq<char>>::empty());
        assert(names_view(negative@) =~= Seq::<Seq<char>>::empty());
    }
    while i < messages.len()
        invariant
            i <= messages@.len(),
            mv == msgs_view(messages@),
            names_view(positive@) == spec_minify_tests(mv.subrange(0, i as int)).0,
            names_view(negative@) == spec_minify_tests(mv.subrange(0, i as int)).1,
        decreases messages@.len() - i,
    {
        let ghost pre_p = positive@;
        let ghost pre_n = negative@;
        match &messages[i] {
            Message::Test(t) => {
                if t.intent {
                    positive.push(t.word.clone());
                } else {
                    negative.push(t.word.clone());
                }
            },
            Message::Info(_) => {},
        }
        proof {
            assert(mv[i as int] == messages@[i as int]@);
            assert(mv.subrange(0, i as int + 1).drop_last() =~= mv.subrange(0, i as int));
            assert(mv.subrange(0, i as int + 1).last() == mv[i as int]);
            if positive@.len() > pre_p.len() {
                assert(names_view(positive@) =~= names_view(pre_p).push(positive@.last()@));
            }
            if negative@.len() > pre_n.len() {
                assert(names_view(negative@) =~= names_view(pre_n).push(negative@.last()@));
            }
        }
        i += 1;
    }
    proof {
        assert(mv.subrange(0, mv.len() as int) =~= mv);
    }
    (positive, negative)
}

/// Renders each raw rule as intent character plus expanded pattern.
pub(crate) fn minify_rules(rules: &Vec<RawRule>, classes: &Vec<ClassDef>, mode: Mode) -> (r: Result<
    Vec<String>,
    Error,
>)
    ensures
        match r {
            Ok(v) => spec_minify_rules(raws_view(rules@), classes_view(classes@), mode) == Ok::<
                Seq<Seq<char>>,
                ErrorV,
            >(names_view(v@)),
            Err(e) => spec_minify_rules(raws_view(rules@), classes_view(classes@), mode) == Err::<
                Seq<Seq<char>>,
                ErrorV,
            >(e@),
        },
{
    let ghost rv = raws_view(rules@);
    let ghost cls = classes_view(classes@);
    let mut out: Vec<String> = Vec::new();
    let mut i: usize = 0;
    proof {
        assert(rv.skip(0) =~= rv);
        assert(names_view(out@) =~= Seq::<Seq<char>>::empty());
    }
    while i < rules.len()
        invariant
            i <= rules@.len(),
            rv == raws_view(rules@),
            cls == classes_view(classes@),
            spec_minify_rules(rv, cls, mode) == (match spec_minify_rules(
                rv.skip(i as int),
                cls,
                mode,
            ) {
                Ok(rest) => Ok::<Seq<Seq<char>>, ErrorV>(names_view(out@) + rest),
                Err(e) => Err::<Seq<Seq<char>>, ErrorV>(e),
            }),
        decreases rules@.len() - i,
    {
        let raw = &rules[i];
        proof {
            assert(rv.skip(i as int)[0] == rv[i as int]);
            assert(rv[i as int] == rules@[i as int]@);
            assert(rv.skip(i as int).drop_first() =~= rv.skip(i as int + 1));
        }
        let pattern_chars = str_chars(raw.pattern.as_str());
        match replace_classes(&pattern_chars, classes, mode) {
            Err(k) => {
                return Err(Error { kind: k, line: raw.line });
            },
            Ok(expanded) => {
                let mut piece: Vec<char> = Vec::new();
                piece.push(if raw.intent {
                    '+'
                } else {
                    '!'
                });
                append_chars(&mut piece, &expanded);
                let ghost pre = out@;
                out.push(string_from_chars(&piece));
                proof {
                    let item = seq![
                        if rv[i as int].intent {
                            '+'
                        } else {
                            '!'
                        },
                    ] + expanded@;
                    assert(piece@ =~= item);
                    assert(names_view(out@) =~= names_view(pre).push(item));
                    match spec_minify_rules(rv.skip(i as int + 1), cls, mode) {
                        Ok(rest) => {
                            assert(names_view(pre).push(item) + rest =~= names_view(pre) + (seq![
                                item,
                            ] + rest));
                        },
                        Err(_) => {},
                    }
                }
            },
        }
        i += 1;
    }
    proof {
        assert(rv.skip(rv.len() as int) =~= Seq::<RawRuleV>::empty());
        assert(names_view(out@) + Seq::<Seq<char>>::empty() =~= names_view(out@));
    }
    Ok(out)
}

/// Joins the parts with `sep` between each two.
fn join_chars(parts: &Vec<String>, sep: char) -> (r: Vec<char>)
    ensures
        r@ == join(names_view(parts@), sep),
{
    let ghost pv = names_view(parts@);
    let mut out: Vec<char> = Vec::new();
    let mut k: usize = 0;
    proof {
        assert(pv.subrange(0, 0) =~= Seq::<Seq<char>>::empty());
    }
    while k < parts.len()
        invariant
            k <= parts@.len(),
            pv == names_view(parts@),
            out@ == join(pv.subrange(0, k as int), sep),
        decreases parts@.len() - k,
    {
        if k > 0 {
            out.push(sep);
        }
        let piece = str_chars(parts[k].as_str());
        append_chars(&mut out, &piece);
        proof {
            assert(pv[k as int] == parts@[k as int]@);
            assert(pv.subrange(0, k as int + 1).drop_last() =~= pv.subrange(0, k as int));
            assert(pv.subrange(0, k as int + 1).last() == pv[k as int]);
            if k == 0 {
                assert(out@ =~= join(pv.subrange(0, 1), sep));
            } else {
                assert(out@ =~= join(pv.subrange(0, k as int), sep) + seq![sep] + pv[k as int]);
            }
        }
        k += 1;
    }
    proof {
        assert(pv.subrange(0, pv.len() as int) =~= pv);
    }
    out
}

/// Renders the whole minified text from the parsed raw data.
pub(crate) fn minify(
    mode: Mode,
    classes: &Vec<ClassDef>,
    rules: &Vec<RawRule>,
    messages: &Vec<Message<TestDraft>>,
    with_tests: bool,
) -> (r: Result<String, Error>)
    ensures
        match r {
            Ok(s) => spec_minify(
                mode,
                classes_view(classes@),
                raws_view(rules@),
                msgs_view(messages@),
                with_tests,
            ) == Ok::<Seq<char>, ErrorV>(s@),
            Err(e) => spec_minify(
                mode,
                classes_view(classes@),
                raws_view(rules@),
                msgs_view(messages@),
                with_tests,
            ) == Err::<Seq<char>, ErrorV>(e@),
        },
{
    let (positive, negative) = minify_tests(messages);
    let rule_strs = match minify_rules(rules, classes, mode) {
        Err(e) => {
            return Err(e);
        },
        Ok(v) => v,
    };
    let mut out: Vec<char> = Vec::new();
    out.push('~');
    out.push(mode.open_delim());
    out.push(mode.close_delim());
    out.push(';');
    let joined = join_chars(&rule_strs, ';');
    append_chars(&mut out, &joined);
    let ghost head = seq!['~'] + mode_str(mode) + seq![';'] + join(names_view(rule_strs@), ';');
    proof {
        assert(out@ =~= head);
    }
    if with_tests {
        if !positive.is_empty() {
            out.push(';');
            out.push('?');
            out.push('+');
            let joined_pos = join_chars(&positive, ' ');
            append_chars(&mut out, &joined_pos);
            proof {
                assert(out@ =~= head + seq![';', '?', '+'] + join(names_view(positive@), ' '));
            }
        }
        if !negative.is_empty() {
            let ghost before = out@;
            out.push(';');
            out.push('?');
            out.push('!');
            let joined_neg = join_chars(&negative, ' ');
            append_chars(&mut out, &joined_neg);
            proof {
                assert(out@ =~= before + seq![';', '?', '!'] + join(names_view(negative@), ' '));
            }
        }
    }
    Ok(string_from_chars(&out))
}

} // verus!
