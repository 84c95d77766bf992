//! Character-level helpers shared by the statement splitter, the parser
//! and the minifier: blank-space tests, trimming, space stripping and
//! first-occurrence search, each with an exact specification.

use vstd::prelude::*;
use vstd::string::*;

verus! {

/// Characters this crate treats as blank space: the Unicode
/// `White_Space` set, written out.
pub open spec fn is_space_char(c: char) -> bool {
    ||| c == ' '
    ||| c == '\t'
    ||| c == '\n'
    ||| c == '\u{000B}'
    ||| c == '\u{000C}'
    ||| c == '\r'
    ||| c == '\u{0085}'
    ||| c == '\u{00A0}'
    ||| c == '\u{1680}'
    ||| (0x2000 <= c as u32 && c as u32 <= 0x200A)
    ||| c == '\u{2028}'
    ||| c == '\u{2029}'
    ||| c == '\u{202F}'
    ||| c == '\u{205F}'
    ||| c == '\u{3000}'
}

pub(crate) fn is_space(c: char) -> (r: bool)
    ensures
        r == is_space_char(c),
{
    c == ' ' || c == '\t' || c == '\n' || c == '\u{000B}' || c == '\u{000C}' || c == '\r' || c
        == '\u{0085}' || c == '\u{00A0}' || c == '\u{1680}' || (0x2000 <= c as u32 && c as u32
        <= 0x200A) || c == '\u{2028}' || c == '\u{2029}' || c == '\u{202F}' || c == '\u{205F}' || c
        == '\u{3000}'
}

/// The text with leading space characters dropped.
pub open spec fn trim_front(s: Seq<char>) -> Seq<char>
    decreases s.len(),
{
    if s.len() > 0 && is_space_char(s[0]) {
        trim_front(s.drop_first())
    } else {
        s
    }
}

/// The text with trailing space characters dropped.
pub open spec fn trim_back(s: Seq<char>) -> Seq<char>
    decreases s.len(),
{
    if s.len() > 0 && is_space_char(s.last()) {
        trim_back(s.drop_last())
    } else {
        s
    }
}

/// The text with space characters dropped at both ends.
pub open spec fn trim_spec(s: Seq<char>) -> Seq<char> {
    trim_back(trim_front(s))
}

/// Trims space characters from both ends of the text.
pub(crate) fn trim_chars(v: &Vec<char>) -> (r: Vec<char>)
    ensures
        r@ == trim_spec(v@),
{
    let len = v.len();
    let mut lo: usize = 0;
    proof {
        assert(v@.skip(0) =~= v@);
    }
    while lo < len && is_space(v[lo])
        invariant
            lo <= len,
            len == v@.len(),
            trim_front(v@) == trim_front(v@.skip(lo as int)),
        decreases len - lo,
    {
        proof {
            assert(v@.skip(lo as int).drop_first() =~= v@.skip(lo as int + 1));
        }
        lo += 1;
    }
    proof {
        if lo < len {
            assert(trim_front(v@.skip(lo as int)) == v@.skip(lo as int));
        } else {
            assert(v@.skip(lo as int) =~= Seq::<char>::empty());
        }
        assert(trim_front(v@) == v@.skip(lo as int));
    }
    let mut hi: usize = len;
    while hi > lo && is_space(v[hi - 1])
        invariant
            lo <= hi <= len,
            len == v@.len(),
            trim_front(v@) == v@.skip(lo as int),
            trim_back(v@.skip(lo as int)) == trim_back(v@.subrange(lo as int, hi as int)),
        decreases hi,
    {
        proof {
            assert(v@.subrange(lo as int, hi as int).drop_last() =~= v@.subrange(
                lo as int,
                hi as int - 1,
            ));
        }
        hi -= 1;
    }
    proof {
        if hi > lo {
            assert(trim_back(v@.subrange(lo as int, hi as int)) == v@.subrange(
                lo as int,
                hi as int,
            ));
        } else {
            assert(v@.subrange(lo as int, hi as int) =~= Seq::<char>::empty());
        }
    }
    let mut r: Vec<char> = Vec::new();
    let mut i: usize = lo;
    while i < hi
        invariant
            lo <= i <= hi <= len,
            len == v@.len(),
            r@ == v@.subrange(lo as int, i as int),
        decreases hi - i,
    {
        r.push(v[i]);
        proof {
            assert(v@.subrange(lo as int, i as int).push(v@[i as int]) =~= v@.subrange(
                lo as int,
                i as int + 1,
            ));
        }
        i += 1;
    }
    r
}

/// The text with leading plain spaces dropped.
pub open spec fn skip_spaces(s: Seq<char>) -> Seq<char>
    decreases s.len(),
{
    if s.len() > 0 && s[0] == ' ' {
        skip_spaces(s.drop_first())
    } else {
        s
    }
}

/// The text with every blank-space character removed; shape rules strip
/// all inner whitespace.
pub open spec fn strip_spaces(s: Seq<char>) -> Seq<char>
    decreases s.len(),
{
    if s.len() == 0 {
        Seq::empty()
    } else if is_space_char(s.last()) {
        strip_spaces(s.drop_last())
    } else {
        strip_spaces(s.drop_last()).push(s.last())
    }
}

/// Space stripping leaves no blank-space character behind: a stored rule
/// pattern is whitespace-free throughout.
pub proof fn lemma_strip_spaces_blank_free(s: Seq<char>)
    ensures
        forall|k: int|
            0 <= k < strip_spaces(s).len() ==> !is_space_char(#[trigger] strip_spaces(s)[k]),
    decreases s.len(),
{
    if s.len() == 0 {
    } else {
        lemma_strip_spaces_blank_free(s.drop_last());
        if !is_space_char(s.last()) {
            let p = strip_spaces(s.drop_last());
            assert forall|k: int|
                0 <= k < strip_spaces(s).len() implies !is_space_char(
                #[trigger] strip_spaces(s)[k],
            ) by {
                if k < p.len() {
                    assert(strip_spaces(s)[k] == p[k]);
                } else {
                    assert(strip_spaces(s)[k] == s.last());
                }
            }
        } else {
            assert forall|k: int|
                0 <= k < strip_spaces(s).len() implies !is_space_char(
                #[trigger] strip_spaces(s)[k],
            ) by {
                assert(strip_spaces(s)[k] == strip_spaces(s.drop_last())[k]);
            }
        }
    }
}

/// Removes every blank-space character from the text.
pub(crate) fn strip_space_chars(v: &Vec<char>) -> (r: Vec<char>)
    ensures
        r@ == strip_spaces(v@),
{
    let mut r: Vec<char> = Vec::new();
    let mut i: usize = 0;
    while i < v.len()
        invariant
            i <= v@.len(),
            r@ == strip_spaces(v@.subrange(0, i as int)),
        decreases v@.len() - i,
    {
        let c = v[i];
        if !is_space(c) {
            r.push(c);
        }
        proof {
            assert(v@.subrange(0, i as int + 1).drop_last() =~= v@.subrange(0, i as int));
            assert(v@.subrange(0, i as int + 1).last() == v@[i as int]);
        }
        i += 1;
    }
    proof {
        assert(v@.subrange(0, v@.len() as int) =~= v@);
    }
    r
}

/// Index of the first occurrence of `c` in `s`, or `s.len()` if there is none.
pub open spec fn find_char(s: Seq<char>, c: char) -> int
    decreases s.len(),
{
    if s.len() == 0 {
        0
    } else if s[0] == c {
        0
    } else {
        1 + find_char(s.drop_first(), c)
    }
}

/// The first-occurrence index always lies between 0 and the text's length.
pub broadcast proof fn lemma_find_char_bounds(s: Seq<char>, c: char)
    ensures
        0 <= #[trigger] find_char(s, c) <= s.len(),
    decreases s.len(),
{
    if s.len() == 0 {
    } else if s[0] == c {
    } else {
        lemma_find_char_bounds(s.drop_first(), c);
    }
}

/// Finds the first occurrence of `c` at or after `from`, or `v.len()`.
pub(crate) fn find_char_from(v: &Vec<char>, c: char, from: usize) -> (r: usize)
    requires
        from <= v@.len(),
    ensures
        r == from + find_char(v@.skip(from as int), c),
{
    let len = v.len();
    let mut i: usize = from;
    while i < len && v[i] != c
        invariant
            from <= i <= len,
            len == v@.len(),
            find_char(v@.skip(from as int), c) == (i - from) + find_char(v@.skip(i as int), c),
        decreases len - i,
    {
        proof {
            assert(v@.skip(i as int).drop_first() =~= v@.skip(i as int + 1));
        }
        i += 1;
    }
    proof {
        if i < len {
            assert(v@.skip(i as int)[0] == v@[i as int]);
            assert(find_char(v@.skip(i as int), c) == 0);
        } else {
            assert(v@.skip(i as int) =~= Seq::<char>::empty());
        }
    }
    i
}

/// Copies the characters of `v` in `lo..hi` into a fresh vector.
pub(crate) fn copy_range(v: &Vec<char>, lo: usize, hi: usize) -> (r: Vec<char>)
    requires
        lo <= hi <= v@.len(),
    ensures
        r@ == v@.subrange(lo as int, hi as int),
{
    let mut r: Vec<char> = Vec::new();
    let mut i: usize = lo;
    while i < hi
        invariant
            lo <= i <= hi <= v@.len(),
            r@ == v@.subrange(lo as int, i as int),
        decreases hi - i,
    {
        r.push(v[i]);
        proof {
            assert(v@.subrange(lo as int, i as int).push(v@[i as int]) =~= v@.subrange(
                lo as int,
                i as int + 1,
            ));
        }
        i += 1;
    }
    r
}

/// Appends every character of `src` to `dst`.
pub(crate) fn append_chars(dst: &mut Vec<char>, src: &Vec<char>)
    ensures
        final(dst)@ == old(dst)@ + src@,
{
    let mut i: usize = 0;
    while i < src.len()
        invariant
            i <= src@.len(),
            dst@ == old(dst)@ + src@.subrange(0, i as int),
        decreases src@.len() - i,
    {
        dst.push(src[i]);
        proof {
            assert(old(dst)@ + src@.subrange(0, i as int + 1) =~= (old(dst)@ + src@.subrange(
                0,
                i as int,
            )).push(src@[i as int]));
        }
        i += 1;
    }
    proof {
        assert(old(dst)@ + src@.subrange(0, src@.len() as int) =~= old(dst)@ + src@);
    }
}

/// The characters of the text, one per element.
pub(crate) fn str_chars(s: &str) -> (r: Vec<char>)
    ensures
        r@ == s@,
{
    let n = s.unicode_len();
    let mut r: Vec<char> = Vec::new();
    let mut i: usize = 0;
    while i < n
        invariant
            i <= n,
            n == s@.len(),
            r@ == s@.subrange(0, i as int),
        decreases n - i,
    {
        r.push(s.get_char(i));
        proof {
            assert(s@.subrange(0, i as int).push(s@[i as int]) =~= s@.subrange(0, i as int + 1));
        }
        i += 1;
    }
    proof {
        assert(s@.subrange(0, n as int) =~= s@);
    }
    r
}

/// Relies on std's `FromIterator` for `String`: collecting an iterator of
/// characters yields the string of exactly those characters in order.
#[verifier::external_body]
pub(crate) fn string_from_chars(v: &Vec<char>) -> (r: String)
    ensures
        r@ == v@,
{
    v.iter().collect()
}

} // verus!
