//! Canonical-form lemmas about minified text.
//!
//! Minified output is already class-inlined: no rule pattern holds a
//! class-reference opener, none holds blank space or a statement
//! separator.  On such rule sets minification is a fixed point: parsing
//! the minified text back and minifying again gives the same text.

use vstd::prelude::*;

use crate::chars::{is_space_char, skip_spaces, strip_spaces, trim_back, trim_front, trim_spec};
use crate::draft::DraftV;
use crate::error::{ErrorV, ParseErrorKindV};
use crate::minify::{join, mode_str, spec_minify, spec_minify_rules, spec_minify_tests};
use crate::parse::{count_tests, init_state, parse_spec, parse_stmt, parse_stmts, test_msgs,
    ws_tokens_rec, ParseStV};
use crate::replace::expand_spec;
use crate::rx::regex_ok;
use crate::statements::{split_rec, split_spec, StatementV};
use crate::types::{ClassV, MessageV, Mode, RawRuleV, TestDraftV};

verus! {

/// A pattern that no further expansion, trimming or space stripping can
/// change: no blank space, no statement separator, no reference opener.
pub open spec fn plain_pattern(mode: Mode, s: Seq<char>) -> bool {
    forall|k: int|
        0 <= k < s.len() ==> !is_space_char(#[trigger] s[k]) && s[k] != ';' && s[k]
            != mode.spec_open()
}

/// A test word as minified text can carry it: non-blank throughout and
/// holding no statement separator.
pub open spec fn plain_word(s: Seq<char>) -> bool {
    s.len() > 0 && forall|k: int|
        0 <= k < s.len() ==> !is_space_char(#[trigger] s[k]) && s[k] != ';'
}

/// An already-class-inlined rule set: every raw pattern is plain and the
/// engine accepts it as it stands.
pub open spec fn inlined_rules(mode: Mode, raws: Seq<RawRuleV>) -> bool {
    forall|i: int|
        0 <= i < raws.len() ==> plain_pattern(mode, (#[trigger] raws[i]).pattern) && regex_ok(
            raws[i].pattern,
        )
}

/// Every declared test word of the message list is plain.
pub open spec fn plain_tests(msgs: Seq<MessageV<TestDraftV>>) -> bool {
    forall|i: int|
        0 <= i < msgs.len() ==> match #[trigger] msgs[i] {
            MessageV::Test(t) => plain_word(t.word),
            MessageV::Info(_) => true,
        }
}

/// The rendering of one rule: its intent character, then its pattern.
pub open spec fn intent_char(intent: bool) -> char {
    if intent {
        '+'
    } else {
        '!'
    }
}

/// The rendering of every rule.
pub open spec fn rule_strs(raws: Seq<RawRuleV>) -> Seq<Seq<char>> {
    raws.map_values(|r: RawRuleV| seq![intent_char(r.intent)] + r.pattern)
}

/// The raw rules as reparsing minified text reconstructs them: same
/// intent and pattern, no note, all on line one.
pub open spec fn reparsed_raws(raws: Seq<RawRuleV>, note: Option<Seq<char>>) -> Seq<RawRuleV> {
    raws.map_values(|r: RawRuleV| RawRuleV { intent: r.intent, pattern: r.pattern, note, line: 1 })
}

/// A pattern without a reference opener expands to itself.
proof fn lemma_expand_identity(
    pattern: Seq<char>,
    classes: Seq<ClassV>,
    visited: Seq<Seq<char>>,
    mode: Mode,
    fuel: nat,
)
    requires
        forall|k: int| 0 <= k < pattern.len() ==> #[trigger] pattern[k] != mode.spec_open(),
    ensures
        expand_spec(pattern, classes, visited, mode, fuel) == Ok::<Seq<char>, ParseErrorKindV>(
            pattern,
        ),
    decreases pattern.len(),
{
    if pattern.len() == 0 {
        assert(pattern =~= Seq::<char>::empty());
    } else {
        lemma_expand_identity(pattern.drop_first(), classes, visited, mode, fuel);
        assert(seq![pattern[0]] + pattern.drop_first() =~= pattern);
    }
}

/// Rendering an inlined rule set never fails and writes each pattern as
/// it stands.
proof fn lemma_minify_rules_inlined(raws: Seq<RawRuleV>, classes: Seq<ClassV>, mode: Mode)
    requires
        forall|i: int| 0 <= i < raws.len() ==> plain_pattern(mode, (#[trigger] raws[i]).pattern),
    ensures
        spec_minify_rules(raws, classes, mode) == Ok::<Seq<Seq<char>>, ErrorV>(rule_strs(raws)),
    decreases raws.len(),
{
    if raws.len() == 0 {
        assert(rule_strs(raws) =~= Seq::<Seq<char>>::empty());
    } else {
        lemma_expand_identity(raws[0].pattern, classes, Seq::empty(), mode, classes.len());
        assert(forall|i: int|
            0 <= i < raws.drop_first().len() ==> #[trigger] raws.drop_first()[i] == raws[i + 1]);
        lemma_minify_rules_inlined(raws.drop_first(), classes, mode);
        assert(seq![seq![intent_char(raws[0].intent)] + raws[0].pattern] + rule_strs(
            raws.drop_first(),
        ) =~= rule_strs(raws));
    }
}

/// An inlined rule set compiles without error.
proof fn lemma_parse_rules_inlined(raws: Seq<RawRuleV>, classes: Seq<ClassV>, mode: Mode)
    requires
        inlined_rules(mode, raws),
    ensures
        crate::parse::spec_parse_rules(raws, classes, mode) is Ok,
    decreases raws.len(),
{
    if raws.len() == 0 {
    } else {
        lemma_expand_identity(raws[0].pattern, classes, Seq::empty(), mode, classes.len());
        assert(forall|i: int|
            0 <= i < raws.drop_first().len() ==> #[trigger] raws.drop_first()[i] == raws[i + 1]);
        lemma_parse_rules_inlined(raws.drop_first(), classes, mode);
    }
}

/// A text without blank space is unchanged by space stripping.
proof fn lemma_strip_identity(s: Seq<char>)
    requires
        forall|k: int| 0 <= k < s.len() ==> !is_space_char(#[trigger] s[k]),
    ensures
        strip_spaces(s) == s,
    decreases s.len(),
{
    if s.len() == 0 {
        assert(s =~= Seq::<char>::empty());
    } else {
        lemma_strip_identity(s.drop_last());
        assert(strip_spaces(s.drop_last()).push(s.last()) =~= s);
    }
}

/// A text whose two ends are not blank is unchanged by trimming.
proof fn lemma_trim_ends(s: Seq<char>)
    requires
        s.len() > 0,
        !is_space_char(s[0]),
        !is_space_char(s.last()),
    ensures
        trim_spec(s) == s,
{
    assert(trim_front(s) == s);
    assert(trim_back(s) == s);
}

/// Joining distributes over taking the first piece off.
proof fn lemma_join_prepend(pieces: Seq<Seq<char>>, sep: char)
    requires
        pieces.len() >= 2,
    ensures
        join(pieces, sep) == pieces[0] + seq![sep] + join(pieces.drop_first(), sep),
    decreases pieces.len(),
{
    if pieces.len() == 2 {
        assert(pieces.drop_last() =~= seq![pieces[0]]);
        assert(pieces.drop_first() =~= seq![pieces[1]]);
        assert(join(pieces.drop_last(), sep) == pieces[0]);
        assert(join(pieces.drop_first(), sep) == pieces[1]);
        assert(join(pieces, sep) =~= pieces[0] + seq![sep] + join(pieces.drop_first(), sep));
    } else {
        let dl = pieces.drop_last();
        let df = pieces.drop_first();
        lemma_join_prepend(dl, sep);
        assert(dl.drop_first() =~= df.drop_last());
        assert(df.last() == pieces.last());
        assert(join(df, sep) == join(df.drop_last(), sep) + seq![sep] + df.last());
        assert(join(pieces, sep) =~= pieces[0] + seq![sep] + join(pieces.drop_first(), sep));
    }
}

/// A joined text avoids every character that the separator and all the
/// pieces avoid.
proof fn lemma_join_avoids(parts: Seq<Seq<char>>, sep: char, c: char)
    requires
        c != sep,
        forall|i: int, k: int|
            0 <= i < parts.len() && 0 <= k < parts[i].len() ==> #[trigger] parts[i][k] != c,
    ensures
        forall|k: int| 0 <= k < join(parts, sep).len() ==> #[trigger] join(parts, sep)[k] != c,
    decreases parts.len(),
{
    if parts.len() == 0 {
    } else if parts.len() == 1 {
        assert(join(parts, sep) == parts[0]);
        assert(forall|k: int| 0 <= k < parts[0].len() ==> #[trigger] parts[0][k] != c);
    } else {
        let dl = parts.drop_last();
        assert forall|i: int, k: int|
            0 <= i < dl.len() && 0 <= k < dl[i].len() implies #[trigger] dl[i][k] != c by {
            assert(dl[i] == parts[i]);
        }
        lemma_join_avoids(dl, sep, c);
        let head = join(dl, sep);
        assert(join(parts, sep) == head + seq![sep] + parts.last());
        assert forall|k: int| 0 <= k < join(parts, sep).len() implies #[trigger] join(
            parts,
            sep,
        )[k] != c by {
            if k < head.len() {
                assert(join(parts, sep)[k] == head[k]);
            } else if k == head.len() {
                assert(join(parts, sep)[k] == sep);
            } else {
                assert(join(parts, sep)[k] == parts.last()[k - head.len() - 1]);
                assert(parts[parts.len() - 1][k - head.len() - 1] != c);
            }
        }
    }
}

/// The last character of a joined text is the last piece's last character.
proof fn lemma_join_last(parts: Seq<Seq<char>>, sep: char)
    requires
        parts.len() >= 1,
        parts.last().len() > 0,
    ensures
        join(parts, sep).len() > 0,
        join(parts, sep).last() == parts.last().last(),
{
    if parts.len() == 1 {
        assert(parts[0] == parts.last());
    }
}

/// Splitting walks through one separator-free piece and its separator.
proof fn lemma_split_piece(p: Seq<char>, t: Seq<char>, cur: Seq<char>, line: nat)
    requires
        forall|k: int| 0 <= k < p.len() ==> #[trigger] p[k] != '\n' && p[k] != ';',
    ensures
        split_rec(p + seq![';'] + t, cur, line) == seq![StatementV { text: cur + p, line }]
            + split_rec(t, Seq::empty(), line),
    decreases p.len(),
{
    if p.len() == 0 {
        assert(p + seq![';'] + t =~= seq![';'] + t);
        assert((seq![';'] + t)[0] == ';');
        assert((seq![';'] + t).drop_first() =~= t);
        assert(cur + p =~= cur);
    } else {
        let whole = p + seq![';'] + t;
        assert(whole[0] == p[0]);
        assert(whole.drop_first() =~= p.drop_first() + seq![';'] + t);
        assert(forall|k: int|
            0 <= k < p.drop_first().len() ==> #[trigger] p.drop_first()[k] != '\n'
                && p.drop_first()[k] != ';');
        lemma_split_piece(p.drop_first(), t, cur.push(p[0]), line);
        assert(cur.push(p[0]) + p.drop_first() =~= cur + p);
    }
}

/// Splitting a separator-free tail yields one statement.
proof fn lemma_split_last(p: Seq<char>, cur: Seq<char>, line: nat)
    requires
        forall|k: int| 0 <= k < p.len() ==> #[trigger] p[k] != '\n' && p[k] != ';',
    ensures
        split_rec(p, cur, line) == seq![StatementV { text: cur + p, line }],
    decreases p.len(),
{
    if p.len() == 0 {
        assert(cur + p =~= cur);
    } else {
        assert(forall|k: int|
            0 <= k < p.drop_first().len() ==> #[trigger] p.drop_first()[k] != '\n'
                && p.drop_first()[k] != ';');
        lemma_split_last(p.drop_first(), cur.push(p[0]), line);
        assert(cur.push(p[0]) + p.drop_first() =~= cur + p);
    }
}

/// Splitting a `;`-joined text of separator-free pieces gives exactly one
/// statement per piece, all on the given line.
proof fn lemma_split_join(pieces: Seq<Seq<char>>, line: nat)
    requires
        pieces.len() >= 1,
        forall|i: int, k: int|
            0 <= i < pieces.len() && 0 <= k < pieces[i].len() ==> #[trigger] pieces[i][k] != '\n'
                && pieces[i][k] != ';',
    ensures
        split_rec(join(pieces, ';'), Seq::empty(), line) == pieces.map_values(
            |p: Seq<char>| StatementV { text: p, line },
        ),
    decreases pieces.len(),
{
    if pieces.len() == 1 {
        assert(forall|k: int| 0 <= k < pieces[0].len() ==> #[trigger] pieces[0][k] != '\n'
            && pieces[0][k] != ';');
        lemma_split_last(pieces[0], Seq::empty(), line);
        assert(Seq::<char>::empty() + pieces[0] =~= pieces[0]);
        assert(seq![StatementV { text: pieces[0], line }] =~= pieces.map_values(
            |p: Seq<char>| StatementV { text: p, line },
        ));
    } else {
        lemma_join_prepend(pieces, ';');
        assert(forall|k: int| 0 <= k < pieces[0].len() ==> #[trigger] pieces[0][k] != '\n'
            && pieces[0][k] != ';');
        lemma_split_piece(pieces[0], join(pieces.drop_first(), ';'), Seq::empty(), line);
        assert(forall|i: int, k: int|
            0 <= i < pieces.drop_first().len() && 0 <= k < pieces.drop_first()[i].len()
                ==> #[trigger] pieces.drop_first()[i][k] != '\n' && pieces.drop_first()[i][k]
                != ';');
        lemma_split_join(pieces.drop_first(), line);
        assert(Seq::<char>::empty() + pieces[0] =~= pieces[0]);
        assert(seq![StatementV { text: pieces[0], line }] + pieces.drop_first().map_values(
            |p: Seq<char>| StatementV { text: p, line },
        ) =~= pieces.map_values(|p: Seq<char>| StatementV { text: p, line }));
    }
}

/// Folding statements distributes over concatenation of statement lists.
proof fn lemma_parse_stmts_append(st: ParseStV, s1: Seq<StatementV>, s2: Seq<StatementV>)
    ensures
        parse_stmts(st, s1 + s2) == (match parse_stmts(st, s1) {
            Ok(m) => parse_stmts(m, s2),
            Err(e) => Err(e),
        }),
    decreases s1.len(),
{
    if s1.len() == 0 {
        assert(s1 + s2 =~= s2);
    } else {
        assert((s1 + s2)[0] == s1[0]);
        assert((s1 + s2).drop_first() =~= s1.drop_first() + s2);
        match parse_stmt(st, s1[0].text, s1[0].line) {
            Ok(m) => {
                lemma_parse_stmts_append(m, s1.drop_first(), s2);
            },
            Err(_) => {},
        }
    }
}

/// Tokenizing walks through one blank-free word.
proof fn lemma_ws_tokens_shift(w: Seq<char>, t: Seq<char>, cur: Seq<char>)
    requires
        forall|k: int| 0 <= k < w.len() ==> !is_space_char(#[trigger] w[k]),
    ensures
        ws_tokens_rec(w + t, cur) == ws_tokens_rec(t, cur + w),
    decreases w.len(),
{
    if w.len() == 0 {
        assert(w + t =~= t);
        assert(cur + w =~= cur);
    } else {
        assert((w + t)[0] == w[0]);
        assert((w + t).drop_first() =~= w.drop_first() + t);
        assert(forall|k: int|
            0 <= k < w.drop_first().len() ==> !is_space_char(#[trigger] w.drop_first()[k]));
        lemma_ws_tokens_shift(w.drop_first(), t, cur.push(w[0]));
        assert(cur.push(w[0]) + w.drop_first() =~= cur + w);
    }
}

/// Tokenizing a space-joined list of plain words gives back the words.
proof fn lemma_ws_tokens_join(words: Seq<Seq<char>>)
    requires
        words.len() >= 1,
        forall|i: int| 0 <= i < words.len() ==> plain_word(#[trigger] words[i]),
    ensures
        ws_tokens_rec(join(words, ' '), Seq::empty()) == words,
    decreases words.len(),
{
    if words.len() == 1 {
        lemma_ws_tokens_shift(words[0], Seq::empty(), Seq::empty());
        assert(words[0] + Seq::<char>::empty() =~= words[0]);
        assert(Seq::<char>::empty() + words[0] =~= words[0]);
        assert(seq![words[0]] =~= words);
    } else {
        lemma_join_prepend(words, ' ');
        let jrest = join(words.drop_first(), ' ');
        assert(words[0] + seq![' '] + jrest =~= words[0] + (seq![' '] + jrest));
        lemma_ws_tokens_shift(words[0], seq![' '] + jrest, Seq::empty());
        assert(Seq::<char>::empty() + words[0] =~= words[0]);
        assert((seq![' '] + jrest)[0] == ' ');
        assert((seq![' '] + jrest).drop_first() =~= jrest);
        assert(forall|i: int|
            0 <= i < words.drop_first().len() ==> plain_word(#[trigger] words.drop_first()[i]));
        lemma_ws_tokens_join(words.drop_first());
        assert(seq![words[0]] + words.drop_first() =~= words);
    }
}

/// The words that test minification collects are all plain when the
/// message list's are.
proof fn lemma_tests_words_plain(msgs: Seq<MessageV<TestDraftV>>)
    requires
        plain_tests(msgs),
    ensures
        forall|i: int|
            0 <= i < spec_minify_tests(msgs).0.len() ==> plain_word(
                #[trigger] spec_minify_tests(msgs).0[i],
            ),
        forall|i: int|
            0 <= i < spec_minify_tests(msgs).1.len() ==> plain_word(
                #[trigger] spec_minify_tests(msgs).1[i],
            ),
    decreases msgs.len(),
{
    if msgs.len() == 0 {
    } else {
        let dl = msgs.drop_last();
        assert forall|i: int| 0 <= i < dl.len() implies match #[trigger] dl[i] {
            MessageV::Test(t) => plain_word(t.word),
            MessageV::Info(_) => true,
        } by {
            assert(dl[i] == msgs[i]);
        }
        lemma_tests_words_plain(dl);
        let p = spec_minify_tests(dl).0;
        let n = spec_minify_tests(dl).1;
        assert(msgs[msgs.len() - 1] == msgs.last());
        match msgs.last() {
            MessageV::Test(t) => {
                if t.intent {
                    assert(spec_minify_tests(msgs).0 == p.push(t.word));
                    assert forall|i: int|
                        0 <= i < spec_minify_tests(msgs).0.len() implies plain_word(
                        #[trigger] spec_minify_tests(msgs).0[i],
                    ) by {
                        if i < p.len() {
                            assert(spec_minify_tests(msgs).0[i] == p[i]);
                        } else {
                            assert(spec_minify_tests(msgs).0[i] == t.word);
                        }
                    }
                } else {
                    assert(spec_minify_tests(msgs).1 == n.push(t.word));
                    assert forall|i: int|
                        0 <= i < spec_minify_tests(msgs).1.len() implies plain_word(
                        #[trigger] spec_minify_tests(msgs).1[i],
                    ) by {
                        if i < n.len() {
                            assert(spec_minify_tests(msgs).1[i] == n[i]);
                        } else {
                            assert(spec_minify_tests(msgs).1[i] == t.word);
                        }
                    }
                }
            },
            MessageV::Info(_) => {},
        }
    }
}

/// Two whole intent groups minify back to themselves.
proof fn lemma_tests_of_groups(pos: Seq<Seq<char>>, neg: Seq<Seq<char>>)
    ensures
        spec_minify_tests(test_msgs(pos, true) + test_msgs(neg, false)).0 == pos,
        spec_minify_tests(test_msgs(pos, true) + test_msgs(neg, false)).1 == neg,
    decreases pos.len() + neg.len(),
{
    let whole = test_msgs(pos, true) + test_msgs(neg, false);
    if neg.len() > 0 {
        lemma_tests_of_groups(pos, neg.drop_last());
        assert(whole.drop_last() =~= test_msgs(pos, true) + test_msgs(neg.drop_last(), false));
        assert(whole.last() == MessageV::Test(
            TestDraftV { intent: false, word: neg.last() },
        ));
        assert(neg.drop_last().push(neg.last()) =~= neg);
    } else if pos.len() > 0 {
        lemma_tests_of_groups(pos.drop_last(), neg);
        assert(whole.drop_last() =~= test_msgs(pos.drop_last(), true) + test_msgs(neg, false));
        assert(whole.last() == MessageV::Test(TestDraftV { intent: true, word: pos.last() }));
        assert(pos.drop_last().push(pos.last()) =~= pos);
    } else {
        assert(whole =~= Seq::<MessageV<TestDraftV>>::empty());
    }
}

/// The mode statement of minified text sets exactly that mode.
proof fn lemma_parse_mode_piece(st: ParseStV, mode: Mode)
    requires
        st.mode is None,
    ensures
        parse_stmt(st, seq!['~', mode.spec_open(), mode.spec_close()], 1) == Ok::<
            ParseStV,
            ErrorV,
        >(
            ParseStV {
                mode: Some(mode),
                classes: st.classes,
                raw_rules: st.raw_rules,
                messages: st.messages,
                last_note: st.last_note,
            },
        ),
{
    let text = seq!['~', mode.spec_open(), mode.spec_close()];
    match mode {
        Mode::Romanized => {
            assert(!is_space_char(text[0]) && !is_space_char(text.last()));
            lemma_trim_ends(text);
            assert(text.drop_first() =~= seq![mode.spec_open(), mode.spec_close()]);
            assert(skip_spaces(text.drop_first()) == text.drop_first());
        },
        Mode::Broad => {
            assert(!is_space_char(text[0]) && !is_space_char(text.last()));
            lemma_trim_ends(text);
            assert(text.drop_first() =~= seq![mode.spec_open(), mode.spec_close()]);
            assert(skip_spaces(text.drop_first()) == text.drop_first());
        },
        Mode::Narrow => {
            assert(!is_space_char(text[0]) && !is_space_char(text.last()));
            lemma_trim_ends(text);
            assert(text.drop_first() =~= seq![mode.spec_open(), mode.spec_close()]);
            assert(skip_spaces(text.drop_first()) == text.drop_first());
        },
    }
}

/// One rendered rule statement appends exactly its raw rule.
proof fn lemma_parse_rule_piece(st: ParseStV, r: RawRuleV, mode: Mode)
    requires
        plain_pattern(mode, r.pattern),
    ensures
        parse_stmt(st, seq![intent_char(r.intent)] + r.pattern, 1) == Ok::<ParseStV, ErrorV>(
            ParseStV {
                mode: st.mode,
                classes: st.classes,
                raw_rules: st.raw_rules.push(
                    RawRuleV {
                        intent: r.intent,
                        pattern: r.pattern,
                        note: st.last_note,
                        line: 1,
                    },
                ),
                messages: st.messages,
                last_note: st.last_note,
            },
        ),
{
    let text = seq![intent_char(r.intent)] + r.pattern;
    assert(text[0] == intent_char(r.intent));
    assert(!is_space_char(text[0]));
    if r.pattern.len() == 0 {
        assert(text.last() == intent_char(r.intent));
    } else {
        assert(text.last() == r.pattern.last());
    }
    lemma_trim_ends(text);
    assert(text.drop_first() =~= r.pattern);
    assert(forall|k: int| 0 <= k < r.pattern.len() ==> !is_space_char(#[trigger] r.pattern[k]));
    lemma_strip_identity(r.pattern);
}

/// The rendered rule statements, in order.
pub open spec fn rule_stmts(raws: Seq<RawRuleV>) -> Seq<StatementV> {
    raws.map_values(|r: RawRuleV| StatementV { text: seq![intent_char(r.intent)] + r.pattern, line: 1 })
}

/// Folding the rendered rule statements appends exactly the reparsed raw
/// rules.
proof fn lemma_parse_rule_stmts(st: ParseStV, raws: Seq<RawRuleV>, mode: Mode)
    requires
        forall|i: int| 0 <= i < raws.len() ==> plain_pattern(mode, (#[trigger] raws[i]).pattern),
    ensures
        parse_stmts(st, rule_stmts(raws)) == Ok::<ParseStV, ErrorV>(
            ParseStV {
                mode: st.mode,
                classes: st.classes,
                raw_rules: st.raw_rules + reparsed_raws(raws, st.last_note),
                messages: st.messages,
                last_note: st.last_note,
            },
        ),
    decreases raws.len(),
{
    if raws.len() == 0 {
        assert(rule_stmts(raws) =~= Seq::<StatementV>::empty());
        assert(st.raw_rules + reparsed_raws(raws, st.last_note) =~= st.raw_rules);
    } else {
        lemma_parse_rule_piece(st, raws[0], mode);
        let st2 = ParseStV {
            mode: st.mode,
            classes: st.classes,
            raw_rules: st.raw_rules.push(
                RawRuleV {
                    intent: raws[0].intent,
                    pattern: raws[0].pattern,
                    note: st.last_note,
                    line: 1,
                },
            ),
            messages: st.messages,
            last_note: st.last_note,
        };
        assert(rule_stmts(raws)[0] == StatementV {
            text: seq![intent_char(raws[0].intent)] + raws[0].pattern,
            line: 1,
        });
        assert(rule_stmts(raws).drop_first() =~= rule_stmts(raws.drop_first()));
        assert(forall|i: int|
            0 <= i < raws.drop_first().len() ==> plain_pattern(
                mode,
                (#[trigger] raws.drop_first()[i]).pattern,
            ));
        lemma_parse_rule_stmts(st2, raws.drop_first(), mode);
        assert(st2.raw_rules + reparsed_raws(raws.drop_first(), st.last_note) =~= st.raw_rules
            + reparsed_raws(raws, st.last_note));
    }
}

/// The statements of a piece list, all on line one.
pub open spec fn stmts_of(pieces: Seq<Seq<char>>) -> Seq<StatementV> {
    pieces.map_values(|p: Seq<char>| StatementV { text: p, line: 1 })
}

/// One rendered test statement appends exactly its test messages.
proof fn lemma_parse_test_piece(st: ParseStV, words: Seq<Seq<char>>, intent: bool)
    requires
        words.len() >= 1,
        forall|i: int| 0 <= i < words.len() ==> plain_word(#[trigger] words[i]),
    ensures
        parse_stmt(st, seq!['?', intent_char(intent)] + join(words, ' '), 1) == Ok::<
            ParseStV,
            ErrorV,
        >(
            ParseStV {
                mode: st.mode,
                classes: st.classes,
                raw_rules: st.raw_rules,
                messages: st.messages + test_msgs(words, intent),
                last_note: st.last_note,
            },
        ),
{
    let jw = join(words, ' ');
    let text = seq!['?', intent_char(intent)] + jw;
    lemma_join_last(words, ' ');
    assert(text[0] == '?');
    assert(!is_space_char(text[0]));
    assert(text.last() == words.last().last());
    assert(!is_space_char(text.last()));
    lemma_trim_ends(text);
    let rest = text.drop_first();
    assert(rest =~= seq![intent_char(intent)] + jw);
    assert(rest[0] == intent_char(intent));
    assert(skip_spaces(rest) == rest);
    assert(rest.drop_first() =~= jw);
    lemma_ws_tokens_join(words);
}

/// The statement piece that declares the mode.
pub open spec fn mode_piece(mode: Mode) -> Seq<char> {
    seq!['~', mode.spec_open(), mode.spec_close()]
}

/// The pieces of the minified text before any test group: the mode
/// statement, then one piece per rendered rule (an empty trailing piece
/// when there is none, for the lone separator after the mode).
pub open spec fn core_pieces(mode: Mode, raws: Seq<RawRuleV>) -> Seq<Seq<char>> {
    if raws.len() == 0 {
        seq![mode_piece(mode), Seq::<char>::empty()]
    } else {
        seq![mode_piece(mode)] + rule_strs(raws)
    }
}

/// The expected-invalid words that minified text keeps.
pub open spec fn kept_pos(msgs: Seq<MessageV<TestDraftV>>, with_tests: bool) -> Seq<Seq<char>> {
    if with_tests && spec_minify_tests(msgs).0.len() > 0 {
        spec_minify_tests(msgs).0
    } else {
        Seq::empty()
    }
}

/// The expected-valid words that minified text keeps.
pub open spec fn kept_neg(msgs: Seq<MessageV<TestDraftV>>, with_tests: bool) -> Seq<Seq<char>> {
    if with_tests && spec_minify_tests(msgs).1.len() > 0 {
        spec_minify_tests(msgs).1
    } else {
        Seq::empty()
    }
}

/// The test-group pieces that `with_tests` appends, each only when its
/// group is non-empty.
pub open spec fn test_pieces(msgs: Seq<MessageV<TestDraftV>>, with_tests: bool) -> Seq<Seq<char>> {
    (if kept_pos(msgs, with_tests).len() > 0 {
        seq![seq!['?', '+'] + join(kept_pos(msgs, with_tests), ' ')]
    } else {
        Seq::<Seq<char>>::empty()
    }) + (if kept_neg(msgs, with_tests).len() > 0 {
        seq![seq!['?', '!'] + join(kept_neg(msgs, with_tests), ' ')]
    } else {
        Seq::<Seq<char>>::empty()
    })
}

/// Every statement piece of the minified text, in order.
pub open spec fn all_pieces(
    mode: Mode,
    raws: Seq<RawRuleV>,
    msgs: Seq<MessageV<TestDraftV>>,
    with_tests: bool,
) -> Seq<Seq<char>> {
    core_pieces(mode, raws) + test_pieces(msgs, with_tests)
}

/// Appending one piece appends it to the joined text after a separator.
proof fn lemma_join_push(ps: Seq<Seq<char>>, x: Seq<char>, sep: char)
    requires
        ps.len() >= 1,
    ensures
        join(ps.push(x), sep) == join(ps, sep) + seq![sep] + x,
{
    assert(ps.push(x).drop_last() =~= ps);
    assert(ps.push(x).last() == x);
}

/// The minified text is its statement pieces joined with `;`.
#[verifier::rlimit(100)]
proof fn lemma_minify_is_join(
    mode: Mode,
    classes: Seq<ClassV>,
    raws: Seq<RawRuleV>,
    msgs: Seq<MessageV<TestDraftV>>,
    with_tests: bool,
)
    requires
        forall|i: int| 0 <= i < raws.len() ==> plain_pattern(mode, (#[trigger] raws[i]).pattern),
    ensures
        spec_minify(mode, classes, raws, msgs, with_tests) == Ok::<Seq<char>, ErrorV>(
            join(all_pieces(mode, raws, msgs, with_tests), ';'),
        ),
{
    lemma_minify_rules_inlined(raws, classes, mode);
    let rs = rule_strs(raws);
    let head = seq!['~'] + mode_str(mode) + seq![';'] + join(rs, ';');
    let mp = mode_piece(mode);
    assert(seq!['~'] + mode_str(mode) =~= mp);
    let core = core_pieces(mode, raws);
    if rs.len() == 0 {
        assert(core.drop_last() =~= seq![mp]);
        assert(join(core.drop_last(), ';') == mp);
        assert(core.last() =~= Seq::<char>::empty());
        assert(join(core, ';') == join(core.drop_last(), ';') + seq![';'] + core.last());
        assert(head =~= join(core, ';'));
    } else {
        assert(core[0] == mp);
        assert(core.drop_first() =~= rs);
        lemma_join_prepend(core, ';');
        assert(head =~= join(core, ';'));
    }
    let pos = spec_minify_tests(msgs).0;
    let neg = spec_minify_tests(msgs).1;
    let c1 = with_tests && pos.len() > 0;
    let c2 = with_tests && neg.len() > 0;
    let tp = seq!['?', '+'] + join(pos, ' ');
    let tn = seq!['?', '!'] + join(neg, ' ');
    let with_pos = if c1 {
        head + seq![';', '?', '+'] + join(pos, ' ')
    } else {
        head
    };
    let m = if c2 {
        with_pos + seq![';', '?', '!'] + join(neg, ' ')
    } else {
        with_pos
    };
    assert(spec_minify(mode, classes, raws, msgs, with_tests) == Ok::<Seq<char>, ErrorV>(m));
    let pieces1 = if c1 {
        core.push(tp)
    } else {
        core
    };
    if c1 {
        lemma_join_push(core, tp, ';');
        assert(with_pos =~= join(pieces1, ';'));
    }
    let pieces = if c2 {
        pieces1.push(tn)
    } else {
        pieces1
    };
    if c2 {
        lemma_join_push(pieces1, tn, ';');
        assert(m =~= join(pieces, ';'));
    }
    assert(pieces =~= all_pieces(mode, raws, msgs, with_tests));
}

/// No statement piece of minified text holds a newline or a separator.
proof fn lemma_pieces_avoid(
    mode: Mode,
    raws: Seq<RawRuleV>,
    msgs: Seq<MessageV<TestDraftV>>,
    with_tests: bool,
)
    requires
        forall|i: int| 0 <= i < raws.len() ==> plain_pattern(mode, (#[trigger] raws[i]).pattern),
        plain_tests(msgs),
    ensures
        forall|i: int, k: int|
            0 <= i < all_pieces(mode, raws, msgs, with_tests).len() && 0 <= k < all_pieces(
                mode,
                raws,
                msgs,
                with_tests,
            )[i].len() ==> #[trigger] all_pieces(mode, raws, msgs, with_tests)[i][k] != '\n'
                && all_pieces(mode, raws, msgs, with_tests)[i][k] != ';',
{
    lemma_tests_words_plain(msgs);
    let pos = spec_minify_tests(msgs).0;
    let neg = spec_minify_tests(msgs).1;
    lemma_join_avoids(pos, ' ', ';');
    lemma_join_avoids(pos, ' ', '\n');
    lemma_join_avoids(neg, ' ', ';');
    lemma_join_avoids(neg, ' ', '\n');
    let pieces = all_pieces(mode, raws, msgs, with_tests);
    let core = core_pieces(mode, raws);
    assert forall|i: int, k: int|
        0 <= i < pieces.len() && 0 <= k < pieces[i].len() implies #[trigger] pieces[i][k] != '\n'
        && pieces[i][k] != ';' by {
        let p = pieces[i];
        if i == 0 {
            assert(p == mode_piece(mode));
            match mode {
                Mode::Romanized => {},
                Mode::Broad => {},
                Mode::Narrow => {},
            }
        } else if i < core.len() {
            if raws.len() == 0 {
                assert(p =~= Seq::<char>::empty());
            } else {
                assert(p == rule_strs(raws)[i - 1]);
                assert(p == seq![intent_char(raws[i - 1].intent)] + raws[i - 1].pattern);
                if k > 0 {
                    assert(p[k] == raws[i - 1].pattern[k - 1]);
                    assert(plain_pattern(mode, raws[i - 1].pattern));
                    assert(!is_space_char(raws[i - 1].pattern[k - 1]));
                }
            }
        } else {
            let tps = test_pieces(msgs, with_tests);
            assert(p == tps[i - core.len()]);
            if kept_pos(msgs, with_tests).len() > 0 && i - core.len() == 0 {
                assert(p == seq!['?', '+'] + join(pos, ' '));
                if k >= 2 {
                    assert(p[k] == join(pos, ' ')[k - 2]);
                }
            } else {
                assert(p == seq!['?', '!'] + join(neg, ' '));
                if k >= 2 {
                    assert(p[k] == join(neg, ' ')[k - 2]);
                }
            }
        }
    }
}

/// Parsing the statements of minified text rebuilds exactly the reparsed
/// state: the same mode, no classes, the reparsed rules, and the kept
/// test words as messages.
proof fn lemma_parse_pieces(
    mode: Mode,
    raws: Seq<RawRuleV>,
    msgs: Seq<MessageV<TestDraftV>>,
    with_tests: bool,
)
    requires
        forall|i: int| 0 <= i < raws.len() ==> plain_pattern(mode, (#[trigger] raws[i]).pattern),
        plain_tests(msgs),
    ensures
        parse_stmts(init_state(), stmts_of(all_pieces(mode, raws, msgs, with_tests))) == Ok::<
            ParseStV,
            ErrorV,
        >(
            ParseStV {
                mode: Some(mode),
                classes: Seq::empty(),
                raw_rules: reparsed_raws(raws, None),
                messages: test_msgs(kept_pos(msgs, with_tests), true) + test_msgs(
                    kept_neg(msgs, with_tests),
                    false,
                ),
                last_note: None,
            },
        ),
{
    lemma_tests_words_plain(msgs);
    let st0 = init_state();
    lemma_parse_mode_piece(st0, mode);
    let st1 = ParseStV {
        mode: Some(mode),
        classes: st0.classes,
        raw_rules: st0.raw_rules,
        messages: st0.messages,
        last_note: st0.last_note,
    };
    let raws2 = reparsed_raws(raws, None);
    let st2 = ParseStV {
        mode: Some(mode),
        classes: Seq::empty(),
        raw_rules: raws2,
        messages: Seq::empty(),
        last_note: None,
    };
    let core = core_pieces(mode, raws);
    let core_stmts = stmts_of(core);
    assert(core_stmts[0] == StatementV { text: mode_piece(mode), line: 1 });
    assert(st0.classes =~= Seq::<ClassV>::empty());
    assert(st0.messages =~= Seq::<MessageV<TestDraftV>>::empty());
    if raws.len() == 0 {
        assert(trim_front(Seq::<char>::empty()) == Seq::<char>::empty());
        assert(trim_back(Seq::<char>::empty()) == Seq::<char>::empty());
        assert(parse_stmt(st1, Seq::<char>::empty(), 1) == Ok::<ParseStV, ErrorV>(st1));
        assert(core_stmts.drop_first() =~= seq![
            StatementV { text: Seq::<char>::empty(), line: 1 },
        ]);
        assert(core_stmts.drop_first().drop_first() =~= Seq::<StatementV>::empty());
        assert(parse_stmts(st1, Seq::<StatementV>::empty()) == Ok::<ParseStV, ErrorV>(st1));
        assert(parse_stmts(st1, core_stmts.drop_first()) == Ok::<ParseStV, ErrorV>(st1));
        assert(raws2 =~= Seq::<RawRuleV>::empty());
        assert(st1 == st2);
        assert(parse_stmts(st0, core_stmts) == Ok::<ParseStV, ErrorV>(st2));
    } else {
        assert(core_stmts.drop_first() =~= rule_stmts(raws));
        lemma_parse_rule_stmts(st1, raws, mode);
        assert(st1.raw_rules + reparsed_raws(raws, None) =~= raws2);
        assert(parse_stmts(st0, core_stmts) == Ok::<ParseStV, ErrorV>(st2));
    }
    let bigp = kept_pos(msgs, with_tests);
    let bign = kept_neg(msgs, with_tests);
    let msgs2 = test_msgs(bigp, true) + test_msgs(bign, false);
    let st3 = ParseStV {
        mode: Some(mode),
        classes: Seq::empty(),
        raw_rules: raws2,
        messages: msgs2,
        last_note: None,
    };
    let tps = test_pieces(msgs, with_tests);
    let all_stmts = stmts_of(all_pieces(mode, raws, msgs, with_tests));
    assert(all_stmts =~= core_stmts + stmts_of(tps));
    lemma_parse_stmts_append(st0, core_stmts, stmts_of(tps));
    if bigp.len() > 0 {
        let tp = seq!['?', '+'] + join(bigp, ' ');
        assert(spec_minify_tests(msgs).0 == bigp);
        lemma_parse_test_piece(st2, bigp, true);
        let st2b = ParseStV {
            mode: Some(mode),
            classes: Seq::empty(),
            raw_rules: raws2,
            messages: test_msgs(bigp, true),
            last_note: None,
        };
        assert(st2.messages + test_msgs(bigp, true) =~= test_msgs(bigp, true));
        if bign.len() > 0 {
            let tn = seq!['?', '!'] + join(bign, ' ');
            assert(stmts_of(tps) =~= seq![
                StatementV { text: tp, line: 1 },
                StatementV { text: tn, line: 1 },
            ]);
            lemma_parse_test_piece(st2b, bign, false);
            assert(st2b.messages + test_msgs(bign, false) =~= msgs2);
            assert(stmts_of(tps).drop_first() =~= seq![StatementV { text: tn, line: 1 }]);
            assert(stmts_of(tps).drop_first().drop_first() =~= Seq::<StatementV>::empty());
            assert(parse_stmts(st3, Seq::<StatementV>::empty()) == Ok::<ParseStV, ErrorV>(st3));
            assert(parse_stmts(st3, stmts_of(tps).drop_first().drop_first()) == Ok::<
                ParseStV,
                ErrorV,
            >(st3));
            assert(parse_stmts(st2b, stmts_of(tps).drop_first()) == Ok::<ParseStV, ErrorV>(st3));
            assert(parse_stmts(st2, stmts_of(tps)) == Ok::<ParseStV, ErrorV>(st3));
        } else {
            assert(stmts_of(tps) =~= seq![StatementV { text: tp, line: 1 }]);
            assert(test_msgs(bign, false) =~= Seq::<MessageV<TestDraftV>>::empty());
            assert(st2b.messages =~= msgs2);
            assert(st2b == st3);
            assert(stmts_of(tps).drop_first() =~= Seq::<StatementV>::empty());
            assert(parse_stmts(st2b, Seq::<StatementV>::empty()) == Ok::<ParseStV, ErrorV>(st2b));
            assert(parse_stmts(st2, stmts_of(tps)) == Ok::<ParseStV, ErrorV>(st3));
        }
    } else {
        assert(test_msgs(bigp, true) =~= Seq::<MessageV<TestDraftV>>::empty());
        if bign.len() > 0 {
            let tn = seq!['?', '!'] + join(bign, ' ');
            assert(stmts_of(tps) =~= seq![StatementV { text: tn, line: 1 }]);
            lemma_parse_test_piece(st2, bign, false);
            assert(st2.messages + test_msgs(bign, false) =~= msgs2);
            assert(stmts_of(tps).drop_first() =~= Seq::<StatementV>::empty());
            assert(parse_stmts(st3, Seq::<StatementV>::empty()) == Ok::<ParseStV, ErrorV>(st3));
            assert(parse_stmts(st2, stmts_of(tps)) == Ok::<ParseStV, ErrorV>(st3));
        } else {
            assert(stmts_of(tps) =~= Seq::<StatementV>::empty());
            assert(msgs2 =~= Seq::<MessageV<TestDraftV>>::empty());
            assert(st2 == st3);
            assert(parse_stmts(st2, stmts_of(tps)) == Ok::<ParseStV, ErrorV>(st3));
        }
    }
}

/// Minification is a fixed point on already-class-inlined rule sets:
/// minifying, parsing the minified text back, and minifying the parse
/// again with the same `with_tests` yields the identical text.
#[verifier::rlimit(60)]
pub proof fn lemma_minify_fixed_point(
    mode: Mode,
    classes: Seq<ClassV>,
    raws: Seq<RawRuleV>,
    msgs: Seq<MessageV<TestDraftV>>,
    with_tests: bool,
)
    requires
        inlined_rules(mode, raws),
        plain_tests(msgs),
    ensures
        spec_minify(mode, classes, raws, msgs, with_tests) matches Ok(m) && parse_spec(m) matches
            Ok(d2) && spec_minify(d2.mode, d2.raw_classes, d2.raw_rules, d2.messages, with_tests)
            == Ok::<Seq<char>, ErrorV>(m),
{
    lemma_minify_is_join(mode, classes, raws, msgs, with_tests);
    let pieces = all_pieces(mode, raws, msgs, with_tests);
    let m = join(pieces, ';');
    lemma_pieces_avoid(mode, raws, msgs, with_tests);
    assert(pieces.len() >= 1);
    lemma_split_join(pieces, 1);
    assert(split_spec(m) =~= stmts_of(pieces));
    lemma_parse_pieces(mode, raws, msgs, with_tests);
    let raws2 = reparsed_raws(raws, None);
    let bigp = kept_pos(msgs, with_tests);
    let bign = kept_neg(msgs, with_tests);
    let msgs2 = test_msgs(bigp, true) + test_msgs(bign, false);
    assert forall|i: int| 0 <= i < raws2.len() implies plain_pattern(
        mode,
        (#[trigger] raws2[i]).pattern,
    ) && regex_ok(raws2[i].pattern) by {
        assert(raws2[i].pattern == raws[i].pattern);
    }
    lemma_parse_rules_inlined(raws2, Seq::empty(), mode);
    match crate::parse::spec_parse_rules(raws2, Seq::<ClassV>::empty(), mode) {
        Ok(rules2) => {
            let d2 = DraftV {
                rules: rules2,
                messages: msgs2,
                mode,
                test_count: count_tests(msgs2),
                raw_rules: raws2,
                raw_classes: Seq::empty(),
            };
            assert(parse_spec(m) == Ok::<DraftV, ErrorV>(d2));
            lemma_minify_is_join(mode, Seq::empty(), raws2, msgs2, with_tests);
            lemma_tests_of_groups(bigp, bign);
            assert(rule_strs(raws2) =~= rule_strs(raws));
            assert(kept_pos(msgs2, with_tests) =~= bigp);
            assert(kept_neg(msgs2, with_tests) =~= bign);
            assert(all_pieces(mode, raws2, msgs2, with_tests) =~= pieces);
            assert(spec_minify(mode, Seq::empty(), raws2, msgs2, with_tests) == Ok::<
                Seq<char>,
                ErrorV,
            >(m));
        },
        Err(_) => {
            assert(false);
        },
    }
}

} // verus!
