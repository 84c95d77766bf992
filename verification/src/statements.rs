//! The statement splitter: breaks raw descriptor text into an ordered
//! sequence of statements, one per piece between `\n` or `;` separators,
//! each carrying the 1-based line its text stands on.

use vstd::prelude::*;

use crate::chars::str_chars;

verus! {

/// One raw statement and the 1-based source line it stands on.
pub struct Statement {
    pub text: Vec<char>,
    pub line: usize,
}

/// Mathematical image of a [`Statement`].
pub ghost struct StatementV {
    pub text: Seq<char>,
    pub line: nat,
}

impl View for Statement {
    type V = StatementV;

    open spec fn view(&self) -> StatementV {
        StatementV { text: self.text@, line: self.line as nat }
    }
}

/// The image of a statement list.
pub open spec fn stmts_view(s: Seq<Statement>) -> Seq<StatementV> {
    s.map_values(|st: Statement| st@)
}

/// Splits the remaining text, with `cur` the piece gathered since the last
/// separator and `line` the line that piece started on; `\n` and `;` both
/// end a statement, and only `\n` advances the line count.
pub open spec fn split_rec(text: Seq<char>, cur: Seq<char>, line: nat) -> Seq<StatementV>
    decreases text.len(),
{
    if text.len() == 0 {
        seq![StatementV { text: cur, line }]
    } else if text[0] == '\n' {
        seq![StatementV { text: cur, line }] + split_rec(text.drop_first(), Seq::empty(), line + 1)
    } else if text[0] == ';' {
        seq![StatementV { text: cur, line }] + split_rec(text.drop_first(), Seq::empty(), line)
    } else {
        split_rec(text.drop_first(), cur.push(text[0]), line)
    }
}

/// The ordered statements of the raw text, with their 1-based lines.
pub open spec fn split_spec(text: Seq<char>) -> Seq<StatementV> {
    split_rec(text, Seq::empty(), 1)
}

/// Splits raw descriptor text into statements with line numbers.
pub(crate) fn split_statements(file: &str) -> (r: Vec<Statement>)
    requires
        file@.len() < usize::MAX,
    ensures
        stmts_view(r@) == split_spec(file@),
{
    let v = str_chars(file);
    let mut out: Vec<Statement> = Vec::new();
    let mut cur: Vec<char> = Vec::new();
    let mut line: usize = 1;
    let mut i: usize = 0;
    proof {
        assert(v@.skip(0) =~= v@);
        assert(stmts_view(out@) =~= Seq::<StatementV>::empty());
    }
    while i < v.len()
        invariant
            i <= v@.len(),
            v@ == file@,
            file@.len() < usize::MAX,
            1 <= line <= 1 + i,
            split_spec(file@) == stmts_view(out@) + split_rec(
                v@.skip(i as int),
                cur@,
                line as nat,
            ),
        decreases v@.len() - i,
    {
        let c = v[i];
        proof {
            assert(v@.skip(i as int).drop_first() =~= v@.skip(i as int + 1));
            assert(v@.skip(i as int)[0] == v@[i as int]);
        }
        if c == '\n' || c == ';' {
            let text = cur;
            cur = Vec::new();
            let ghost prev = out@;
            out.push(Statement { text, line });
            proof {
                assert(stmts_view(out@) =~= stmts_view(prev).push(out@.last()@));
                assert(stmts_view(prev).push(out@.last()@) + split_rec(
                    v@.skip(i as int + 1),
                    Seq::empty(),
                    if c == '\n' {
                        line as nat + 1
                    } else {
                        line as nat
                    },
                ) =~= stmts_view(prev) + split_rec(v@.skip(i as int), text@, line as nat));
            }
            if c == '\n' {
                line += 1;
            }
        } else {
            cur.push(c);
        }
        i += 1;
    }
    proof {
        assert(v@.skip(v@.len() as int) =~= Seq::<char>::empty());
    }
    let ghost prev = out@;
    out.push(Statement { text: cur, line });
    proof {
        assert(stmts_view(out@) =~= stmts_view(prev).push(out@.last()@));
    }
    out
}

} // verus!
