//! Character-sequence helpers: substring search, joining text parts,
//! token extraction primitives, and Unicode lowercasing.

use vstd::prelude::*;

verus! {

/// `needle` occurs in `hay` starting at position `i`.
pub open spec fn is_substring_at(hay: Seq<char>, needle: Seq<char>, i: int) -> bool {
    0 <= i && i + needle.len() <= hay.len() && hay.subrange(i, i + needle.len() as int)
        == needle
}

/// `needle` occurs somewhere in `hay` as a contiguous run of characters.
pub open spec fn is_substring(hay: Seq<char>, needle: Seq<char>) -> bool {
    exists|i: int| is_substring_at(hay, needle, i)
}

/// Substring search over the characters of two string slices.
pub fn contains_str(hay: &str, needle: &str) -> (r: bool)
    ensures
        r == is_substring(hay@, needle@),
{
    let n: usize = hay.unicode_len();
    let m: usize = needle.unicode_len();
    if m > n {
        proof {
            assert(forall|i: int| !is_substring_at(hay@, needle@, i));
        }
        return false;
    }
    if m == 0 {
        proof {
            assert(hay@.subrange(0, 0) =~= needle@);
            assert(is_substring_at(hay@, needle@, 0));
        }
        return true;
    }
    let mut i: usize = 0;
    while i <= n - m
        invariant
            1 <= m <= n,
            n == hay@.len(),
            m == needle@.len(),
            i <= n - m + 1,
            forall|k: int| 0 <= k < i ==> !is_substring_at(hay@, needle@, k),
        decreases n - m + 1 - i,
    {
        let mut j: usize = 0;
        let mut ok: bool = true;
        while j < m && ok
            invariant
                m <= n,
                n == hay@.len(),
                m == needle@.len(),
                i <= n - m,
                j <= m,
                ok ==> forall|t: int| 0 <= t < j ==> hay@[i + t] == needle@[t],
                !ok ==> !is_substring_at(hay@, needle@, i as int),
            decreases m - j, (if ok { 1int } else { 0int }),
    {
            if hay.get_char(i + j) != needle.get_char(j) {
                proof {
                    assert(hay@.subrange(i as int, i + m as int)[j as int] == hay@[i + j]);
                }
                ok = false;
            } else {
                j += 1;
            }
        }
        if ok {
            proof {
                assert(hay@.subrange(i as int, i + m as int) =~= needle@);
                assert(is_substring_at(hay@, needle@, i as int));
            }
            return true;
        }
        i += 1;
    }
    proof {
        assert(forall|k: int| i <= k ==> !is_substring_at(hay@, needle@, k));
    }
    false
}

/// The parts concatenated in order, with `sep` between consecutive parts.
pub open spec fn join_with(parts: Seq<Seq<char>>, sep: Seq<char>) -> Seq<char>
    decreases parts.len(),
{
    if parts.len() == 0 {
        Seq::empty()
    } else if parts.len() == 1 {
        parts[0]
    } else {
        join_with(parts.drop_last(), sep) + sep + parts.last()
    }
}

/// Joins string parts with a separator, mirroring `join_with` on the views.
pub fn join_with_sep(parts: &Vec<String>, sep: &str) -> (r: String)
    ensures
        r@ == join_with(parts.deep_view(), sep@),
{
    let mut r = String::new();
    let mut i: usize = 0;
    while i < parts.len()
        invariant
            i <= parts.len(),
            parts.deep_view().len() == parts.len(),
            r@ == join_with(parts.deep_view().take(i as int), sep@),
        decreases parts.len() - i,
    {
        if i > 0 {
            r.append(sep);
        }
        r.append(parts[i].as_str());
        proof {
            let dv = parts.deep_view();
            assert(dv.take(i + 1).drop_last() =~= dv.take(i as int));
            assert(dv.take(i + 1).last() == dv[i as int]);
            if i == 0 {
                assert(r@ =~= dv.take(1)[0]);
            }
        }
        i += 1;
    }
    proof {
        assert(parts.deep_view().take(parts.len() as int) =~= parts.deep_view());
    }
    r
}

/// Number of leading characters of `s` that satisfy `p`.
pub open spec fn prefix_len(s: Seq<char>, p: spec_fn(char) -> bool) -> int
    decreases s.len(),
{
    if s.len() == 0 || !p(s[0]) {
        0
    } else {
        1 + prefix_len(s.drop_first(), p)
    }
}

/// Number of trailing characters of `s` that satisfy `p`.
pub open spec fn suffix_len(s: Seq<char>, p: spec_fn(char) -> bool) -> int
    decreases s.len(),
{
    if s.len() == 0 || !p(s.last()) {
        0
    } else {
        1 + suffix_len(s.drop_last(), p)
    }
}

pub proof fn lemma_prefix_len_from_indices(s: Seq<char>, p: spec_fn(char) -> bool, k: int)
    requires
        0 <= k <= s.len(),
        forall|j: int| 0 <= j < k ==> p(s[j]),
        k < s.len() ==> !p(s[k]),
    ensures
        prefix_len(s, p) == k,
    decreases s.len(),
{
    if k == 0 {
    } else {
        assert(p(s[0]));
        assert(forall|j: int| 0 <= j < k - 1 ==> s.drop_first()[j] == s[j + 1]);
        lemma_prefix_len_from_indices(s.drop_first(), p, k - 1);
    }
}

pub proof fn lemma_suffix_len_from_indices(s: Seq<char>, p: spec_fn(char) -> bool, k: int)
    requires
        0 <= k <= s.len(),
        forall|j: int| s.len() - k <= j < s.len() ==> p(s[j]),
        k < s.len() ==> !p(s[s.len() - k - 1]),
    ensures
        suffix_len(s, p) == k,
    decreases s.len(),
{
    if k == 0 {
    } else {
        assert(p(s.last()));
        assert(forall|j: int| 0 <= j < s.len() - 1 ==> s.drop_last()[j] == s[j]);
        lemma_suffix_len_from_indices(s.drop_last(), p, k - 1);
    }
}

/// ASCII whitespace, the delimiters recognised when tokenising a log line.
pub open spec fn spec_is_ws(c: char) -> bool {
    c == ' ' || c == '\t' || c == '\n' || c == '\r' || c == '\u{0b}' || c == '\u{0c}'
}

/// A square-bracket character, stripped from the ends of a log timestamp token.
pub open spec fn spec_is_bracket(c: char) -> bool {
    c == '[' || c == ']'
}

pub open spec fn ws_pred() -> spec_fn(char) -> bool {
    |c: char| spec_is_ws(c)
}

pub open spec fn non_ws_pred() -> spec_fn(char) -> bool {
    |c: char| !spec_is_ws(c)
}

pub open spec fn bracket_pred() -> spec_fn(char) -> bool {
    |c: char| spec_is_bracket(c)
}

/// The first whitespace-delimited token of `s` (empty if `s` is all whitespace).
pub open spec fn first_token(s: Seq<char>) -> Seq<char> {
    let a = prefix_len(s, ws_pred());
    let rest = s.subrange(a, s.len() as int);
    rest.subrange(0, prefix_len(rest, non_ws_pred()))
}

/// `s` with any leading and trailing square brackets removed.
pub open spec fn trim_brackets(s: Seq<char>) -> Seq<char> {
    let a = prefix_len(s, bracket_pred());
    let rest = s.subrange(a, s.len() as int);
    rest.subrange(0, rest.len() - suffix_len(rest, bracket_pred()))
}

pub fn is_ws_char(c: char) -> (r: bool)
    ensures
        r == spec_is_ws(c),
{
    c == ' ' || c == '\t' || c == '\n' || c == '\r' || c == '\u{0b}' || c == '\u{0c}'
}

pub fn is_bracket_char(c: char) -> (r: bool)
    ensures
        r == spec_is_bracket(c),
{
    c == '[' || c == ']'
}

/// The Unicode lowercase image of a character sequence, as `str::to_lowercase`
/// computes it; a function of the characters alone.
pub uninterp spec fn lower_of(s: Seq<char>) -> Seq<char>;

/// Relies on `str::to_lowercase`: the result depends only on the characters of `s`.
#[verifier::external_body]
pub(crate) fn lowercase(s: &str) -> (r: String)
    ensures
        r@ == lower_of(s@),
{
    s.to_lowercase()
}

} // verus!
