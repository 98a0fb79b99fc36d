//! Finding the most recent full-system-upgrade timestamp in a log.
//!
//! The log is a sequence of lines, most recent last.  A line qualifies when
//! it contains the literal upgrade marker `pacman -Syu`.  Only the most
//! recent qualifying line is consulted: its first whitespace-delimited
//! token, with leading and trailing square brackets stripped, must parse as
//! a `YYYY-MM-DDTHH:MM:SS±HHMM` timestamp.

use vstd::prelude::*;

use crate::datetime::{parse_timestamp, ts_of_str, valid_ts_str, Timestamp};
use crate::text::{
    bracket_pred, contains_str, first_token, is_bracket_char, is_substring, is_ws_char,
    lemma_prefix_len_from_indices, lemma_suffix_len_from_indices, non_ws_pred, spec_is_bracket,
    spec_is_ws, trim_brackets, ws_pred,
};

verus! {

use vstd::string::*;

#[derive(Clone, Copy, Debug, PartialEq, Eq, Structural)]
pub enum SyncError {
    /// No log line contains the upgrade marker.
    NotFound,
    /// The most recent marker line's leading token is not a timestamp.
    MalformedTimestamp,
}

/// The literal that marks a full-system-upgrade invocation in the log.
pub open spec fn upgrade_marker() -> Seq<char> {
    "pacman -Syu"@
}

pub open spec fn line_has_marker(l: Seq<char>) -> bool {
    is_substring(l, upgrade_marker())
}

/// The most recent (last by position) line containing the upgrade marker.
pub open spec fn last_marker_line(lines: Seq<Seq<char>>) -> Option<Seq<char>>
    decreases lines.len(),
{
    if lines.len() == 0 {
        None
    } else if line_has_marker(lines.last()) {
        Some(lines.last())
    } else {
        last_marker_line(lines.drop_last())
    }
}

/// What scanning the log yields: the timestamp of the most recent marker
/// line, or the error that pins down why there is none.
pub open spec fn sync_result(lines: Seq<Seq<char>>) -> Result<Timestamp, SyncError> {
    match last_marker_line(lines) {
        None => Err(SyncError::NotFound),
        Some(l) => {
            let tok = trim_brackets(first_token(l));
            if valid_ts_str(tok) {
                Ok(ts_of_str(tok))
            } else {
                Err(SyncError::MalformedTimestamp)
            }
        },
    }
}

/// The first whitespace-delimited token of `line`, with leading and
/// trailing square brackets stripped.
pub fn token_of_line<'a>(line: &'a str) -> (t: &'a str)
    ensures
        t@ == trim_brackets(first_token(line@)),
{
    let n: usize = line.unicode_len();
    let mut a: usize = 0;
    while a < n && is_ws_char(line.get_char(a))
        invariant
            a <= n,
            n == line@.len(),
            forall|j: int| 0 <= j < a ==> spec_is_ws(line@[j]),
        decreases n - a,
    {
        a += 1;
    }
    let mut b: usize = a;
    while b < n && !is_ws_char(line.get_char(b))
        invariant
            a <= b <= n,
            n == line@.len(),
            forall|j: int| a <= j < b ==> !spec_is_ws(line@[j]),
        decreases n - b,
    {
        b += 1;
    }
    let mut c: usize = a;
    while c < b && is_bracket_char(line.get_char(c))
        invariant
            a <= c <= b <= n,
            n == line@.len(),
            forall|j: int| a <= j < c ==> spec_is_bracket(line@[j]),
        decreases b - c,
    {
        c += 1;
    }
    let mut d: usize = b;
    while d > c && is_bracket_char(line.get_char(d - 1))
        invariant
            c <= d <= b <= n,
            n == line@.len(),
            forall|j: int| d <= j < b ==> spec_is_bracket(line@[j]),
        decreases d,
    {
        d -= 1;
    }
    proof {
        lemma_prefix_len_from_indices(line@, ws_pred(), a as int);
        let rest = line@.subrange(a as int, n as int);
        lemma_prefix_len_from_indices(rest, non_ws_pred(), b - a);
        let tok = rest.subrange(0, b - a);
        assert(tok =~= line@.subrange(a as int, b as int));
        assert(first_token(line@) == tok);
        lemma_prefix_len_from_indices(tok, bracket_pred(), c - a);
        let rest2 = tok.subrange(c - a, tok.len() as int);
        assert(rest2 =~= line@.subrange(c as int, b as int));
        lemma_suffix_len_from_indices(rest2, bracket_pred(), b - d);
        assert(rest2.subrange(0, rest2.len() - (b - d)) =~= line@.subrange(c as int, d as int));
        assert(trim_brackets(first_token(line@)) == line@.subrange(c as int, d as int));
    }
    line.substring_char(c, d)
}

/// Scans the log lines, most recent first, for the upgrade marker, and
/// parses the timestamp of the most recent marker line.
pub fn find_last_sync(lines: &Vec<String>) -> (r: Result<Timestamp, SyncError>)
    ensures
        r == sync_result(lines.deep_view()),
        r matches Ok(t) ==> t.wf(),
{
    let ghost dv = lines.deep_view();
    let mut i: usize = lines.len();
    proof {
        assert(dv.take(lines.len() as int) =~= dv);
    }
    while i > 0
        invariant
            i <= lines.len(),
            dv == lines.deep_view(),
            dv.len() == lines.len(),
            last_marker_line(dv) == last_marker_line(dv.take(i as int)),
        decreases i,
    {
        let line = &lines[i - 1];
        if contains_str(line.as_str(), "pacman -Syu") {
            proof {
                assert(dv.take(i as int).last() == dv[i - 1]);
                assert(line_has_marker(dv[i - 1]));
            }
            let tok = token_of_line(line.as_str());
            match parse_timestamp(tok) {
                Some(t) => {
                    return Ok(t);
                },
                None => {
                    return Err(SyncError::MalformedTimestamp);
                },
            }
        }
        proof {
            assert(!line_has_marker(dv.take(i as int).last()));
            assert(dv.take(i as int).drop_last() =~= dv.take(i - 1));
        }
        i -= 1;
    }
    proof {
        assert(dv.take(0) =~= Seq::<Seq<char>>::empty());
    }
    Err(SyncError::NotFound)
}

} // verus!
