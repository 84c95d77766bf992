//! The class expander: substitutes every delimiter-wrapped class-name
//! reference in a pattern with that class's own raw pattern, itself
//! recursively expanded, wrapped in a non-capturing group so a class can
//! never shift the numbering of capturing groups around it.
//!
//! The names whose expansion is in progress are carried along; meeting one
//! of them again is a recursive reference and a hard error, at any chain
//! depth.  A fuel bound of one per class makes termination plain; it can
//! only run out after every class name is already in progress, so a
//! repeated name is always met first.

use vstd::prelude::*;

use crate::chars::{append_chars, copy_range, find_char, find_char_from, str_chars,
    string_from_chars};
use crate::error::{ParseErrorKind, ParseErrorKindV};
use crate::types::{classes_view, ClassDef, ClassV, Mode};

verus! {

broadcast use crate::chars::lemma_find_char_bounds;

/// The raw pattern of the named class: first entry of the table with that
/// name, if any.
pub open spec fn class_lookup(classes: Seq<ClassV>, name: Seq<char>) -> Option<Seq<char>>
    decreases classes.len(),
{
    if classes.len() == 0 {
        None
    } else if classes[0].name == name {
        Some(classes[0].pattern)
    } else {
        class_lookup(classes.drop_first(), name)
    }
}

/// The image of a list of class names.
pub open spec fn names_view(s: Seq<String>) -> Seq<Seq<char>> {
    s.map_values(|x: String| x@)
}

/// The pattern with every class reference `open name close` replaced by
/// the class's expanded pattern wrapped as `(?:...)`.  An opening
/// delimiter with no closing one stands for itself.  An undefined name is
/// an unknown reference; a name whose expansion is already in progress,
/// or a chain deeper than the fuel allows, is a recursive reference.
pub open spec fn expand_spec(
    pattern: Seq<char>,
    classes: Seq<ClassV>,
    visited: Seq<Seq<char>>,
    mode: Mode,
    fuel: nat,
) -> Result<Seq<char>, ParseErrorKindV>
    decreases fuel, pattern.len(),
{
    if pattern.len() == 0 {
        Ok(Seq::empty())
    } else if pattern[0] == mode.spec_open() && 1 + find_char(pattern.skip(1), mode.spec_close())
        < pattern.len() {
        let j = 1 + find_char(pattern.skip(1), mode.spec_close());
        let name = pattern.subrange(1, j);
        match class_lookup(classes, name) {
            None => Err(ParseErrorKindV::UnknownClassReference(name)),
            Some(body) => {
                if visited.contains(name) || fuel == 0 {
                    Err(ParseErrorKindV::RecursiveClassReference(name))
                } else {
                    match expand_spec(body, classes, visited.push(name), mode, (fuel - 1) as nat) {
                        Err(e) => Err(e),
                        Ok(inner) => match expand_spec(
                            pattern.skip(j + 1),
                            classes,
                            visited,
                            mode,
                            fuel,
                        ) {
                            Err(e) => Err(e),
                            Ok(rest) => Ok(
                                seq!['(', '?', ':'] + inner + seq![')'] + rest,
                            ),
                        },
                    }
                }
            },
        }
    } else {
        match expand_spec(pattern.drop_first(), classes, visited, mode, fuel) {
            Err(e) => Err(e),
            Ok(rest) => Ok(seq![pattern[0]] + rest),
        }
    }
}

/// The pattern fully expanded against the class table, with one fuel per
/// class.
pub open spec fn spec_replace(pattern: Seq<char>, classes: Seq<ClassV>, mode: Mode) -> Result<
    Seq<char>,
    ParseErrorKindV,
> {
    expand_spec(pattern, classes, Seq::empty(), mode, classes.len())
}

/// The image of an expansion result.
pub open spec fn expand_res_view(r: Result<Vec<char>, ParseErrorKind>) -> Result<
    Seq<char>,
    ParseErrorKindV,
> {
    match r {
        Ok(v) => Ok(v@),
        Err(k) => Err(k@),
    }
}

/// Finds the raw pattern of the named class.
pub(crate) fn lookup_class(classes: &Vec<ClassDef>, name: &String) -> (r: Option<String>)
    ensures
        match r {
            Some(p) => class_lookup(classes_view(classes@), name@) == Some(p@),
            None => class_lookup(classes_view(classes@), name@) is None,
        },
{
    let ghost cls = classes_view(classes@);
    let mut k: usize = 0;
    proof {
        assert(cls.skip(0) =~= cls);
    }
    while k < classes.len()
        invariant
            k <= classes@.len(),
            cls == classes_view(classes@),
            class_lookup(cls, name@) == class_lookup(cls.skip(k as int), name@),
        decreases classes@.len() - k,
    {
        proof {
            assert(cls.skip(k as int)[0] == cls[k as int]);
            assert(cls[k as int] == classes@[k as int]@);
            assert(cls.skip(k as int).drop_first() =~= cls.skip(k as int + 1));
        }
        if classes[k].name == *name {
            return Some(classes[k].pattern.clone());
        }
        k += 1;
    }
    proof {
        assert(cls.skip(cls.len() as int) =~= Seq::<ClassV>::empty());
    }
    None
}

/// Whether the name's expansion is already in progress.
fn contains_name(visited: &Vec<String>, name: &String) -> (r: bool)
    ensures
        r == names_view(visited@).contains(name@),
{
    let mut k: usize = 0;
    while k < visited.len()
        invariant
            k <= visited@.len(),
            forall|j: int| 0 <= j < k ==> names_view(visited@)[j] != name@,
        decreases visited@.len() - k,
    {
        if visited[k] == *name {
            proof {
                assert(names_view(visited@)[k as int] == name@);
            }
            return true;
        }
        k += 1;
    }
    false
}

/// Expands the pattern from its first character on, with `visited` the
/// names in progress, leaving `visited` as it was.
fn expand(
    pattern: &Vec<char>,
    classes: &Vec<ClassDef>,
    visited: &mut Vec<String>,
    mode: Mode,
    fuel: usize,
) -> (r: Result<Vec<char>, ParseErrorKind>)
    ensures
        final(visited)@ == old(visited)@,
        expand_res_view(r) == expand_spec(
            pattern@,
            classes_view(classes@),
            names_view(old(visited)@),
            mode,
            fuel as nat,
        ),
    decreases fuel, pattern@.len(),
{
    let ghost cls = classes_view(classes@);
    let ghost vis = names_view(old(visited)@);
    let open_delim = mode.open_delim();
    let close_delim = mode.close_delim();
    let mut out: Vec<char> = Vec::new();
    let mut i: usize = 0;
    proof {
        assert(pattern@.skip(0) =~= pattern@);
    }
    while i < pattern.len()
        invariant
            i <= pattern@.len(),
            cls == classes_view(classes@),
            vis == names_view(visited@),
            visited@ == old(visited)@,
            open_delim == mode.spec_open(),
            close_delim == mode.spec_close(),
            expand_spec(pattern@, cls, vis, mode, fuel as nat) == (match expand_spec(
                pattern@.skip(i as int),
                cls,
                vis,
                mode,
                fuel as nat,
            ) {
                Ok(s) => Ok::<Seq<char>, ParseErrorKindV>(out@ + s),
                Err(e) => Err::<Seq<char>, ParseErrorKindV>(e),
            }),
        decreases pattern@.len() - i,
    {
        let ghost rem = pattern@.skip(i as int);
        let c = pattern[i];
        proof {
            assert(rem[0] == pattern@[i as int]);
            assert(rem.drop_first() =~= pattern@.skip(i as int + 1));
            assert(rem.skip(1) =~= pattern@.skip(i as int + 1));
        }
        let mut literal = true;
        if c == open_delim {
            let j = find_char_from(pattern, close_delim, i + 1);
            proof {
                assert(1 + find_char(rem.skip(1), mode.spec_close()) == j - i);
            }
            if j < pattern.len() {
                literal = false;
                let ghost jr = j - i;
                let name_chars = copy_range(pattern, i + 1, j);
                proof {
                    assert(rem.subrange(1, jr) =~= pattern@.subrange(i as int + 1, j as int));
                }
                let name = string_from_chars(&name_chars);
                match lookup_class(classes, &name) {
                    None => {
                        return Err(ParseErrorKind::UnknownClassReference(name));
                    },
                    Some(body) => {
                        if fuel == 0 || contains_name(visited, &name) {
                            return Err(ParseErrorKind::RecursiveClassReference(name));
                        }
                        let body_chars = str_chars(body.as_str());
                        let ghost pre_push = visited@;
                        visited.push(name);
                        proof {
                            assert(names_view(visited@) =~= vis.push(name_chars@));
                        }
                        let inner = expand(&body_chars, classes, visited, mode, fuel - 1);
                        let popped = visited.pop();
                        proof {
                            assert(visited@ =~= pre_push);
                        }
                        match inner {
                            Err(k) => {
                                return Err(k);
                            },
                            Ok(body_out) => {
                                let ghost pre = out@;
                                out.push('(');
                                out.push('?');
                                out.push(':');
                                append_chars(&mut out, &body_out);
                                out.push(')');
                                proof {
                                    let wrap = seq!['(', '?', ':'] + body_out@ + seq![')'];
                                    assert(out@ =~= pre + wrap);
                                    assert(pattern@.skip(j as int + 1) =~= rem.skip(jr + 1));
                                    match expand_spec(
                                        pattern@.skip(j as int + 1),
                                        cls,
                                        vis,
                                        mode,
                                        fuel as nat,
                                    ) {
                                        Ok(s) => {
                                            assert((pre + wrap) + s =~= pre + (wrap + s));
                                        },
                                        Err(_) => {},
                                    }
                                }
                                i = j + 1;
                            },
                        }
                    },
                }
            }
        }
        if literal {
            let ghost pre = out@;
            out.push(c);
            proof {
                assert(out@ =~= pre + seq![c]);
                match expand_spec(pattern@.skip(i as int + 1), cls, vis, mode, fuel as nat) {
                    Ok(s) => {
                        assert((pre + seq![c]) + s =~= pre + (seq![c] + s));
                    },
                    Err(_) => {},
                }
            }
            i += 1;
        }
    }
    proof {
        assert(pattern@.skip(pattern@.len() as int) =~= Seq::<char>::empty());
        assert(out@ + Seq::<char>::empty() =~= out@);
    }
    Ok(out)
}

/// Expands every class reference in the pattern against the class table.
pub(crate) fn replace_classes(pattern: &Vec<char>, classes: &Vec<ClassDef>, mode: Mode) -> (r:
    Result<Vec<char>, ParseErrorKind>)
    ensures
        expand_res_view(r) == spec_replace(pattern@, classes_view(classes@), mode),
{
    let mut visited: Vec<String> = Vec::new();
    proof {
        assert(names_view(Seq::<String>::empty()) =~= Seq::<Seq<char>>::empty());
    }
    expand(pattern, classes, &mut visited, mode, classes.len())
}

} // verus!
