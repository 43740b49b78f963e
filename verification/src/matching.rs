//! Regular-expression searches, performed by the `regex` crate.
//!
//! What a search finds is not spelled out here: each result has a name, a
//! function of the pattern and the text. Beside the name stand the facts that
//! the crate documents of every match: its offsets count bytes, `start <=
//! end`, both fall between characters of the text, and successive matches do
//! not overlap.
//!
//! Every search compiles its pattern anew. The patterns of this library are
//! short, and a delta is searched a few times per block at most.

use vstd::prelude::*;
use regex::Regex;
use crate::text::{byte_len, byte_slice, span_ok};

verus! {

/// The match that `Regex::find` reports for `pattern` in `text`, as `(start,
/// end)`; `None` if there is no match or `pattern` is not a valid expression.
pub uninterp spec fn regex_find(pattern: Seq<char>, text: Seq<char>) -> Option<(usize, usize)>;

/// The matches that `Regex::find_iter` yields for `pattern` in `text`, in the
/// order it yields them; empty if `pattern` is not a valid expression.
pub uninterp spec fn regex_find_iter(pattern: Seq<char>, text: Seq<char>) -> Seq<(usize, usize)>;

/// The capture groups that `Regex::captures` reports for `pattern` in `text`,
/// by group index; `None` if there is no match or `pattern` is not a valid
/// expression.
pub uninterp spec fn regex_captures(pattern: Seq<char>, text: Seq<char>) -> Option<
    Seq<Option<(usize, usize)>>,
>;

/// The replacement holds no `$`, so that it stands for itself.
pub open spec fn plain(replacement: Seq<char>) -> bool {
    forall|i: int| 0 <= i < replacement.len() ==> replacement[i] != '$'
}

/// `text` from byte `cursor` on with `replacement` in place of every match:
/// the text up to a match, the replacement, and so on behind the match.
pub open spec fn replaced_from(
    text: Seq<char>,
    found: Seq<(usize, usize)>,
    cursor: int,
    replacement: Seq<char>,
) -> Seq<char>
    decreases found.len(),
{
    if found.len() == 0 {
        byte_slice(text, cursor, byte_len(text))
    } else {
        byte_slice(text, cursor, found[0].0 as int) + replacement + replaced_from(
            text,
            found.drop_first(),
            found[0].1 as int,
            replacement,
        )
    }
}

/// Every span is a range of whole characters of `text`.
pub open spec fn spans_ok(text: Seq<char>, spans: Seq<(usize, usize)>) -> bool {
    forall|i: int| 0 <= i < spans.len() ==> span_ok(text, (#[trigger] spans[i]).0 as int, spans[i].1 as int)
}

/// Each span ends before or where the next one begins.
pub open spec fn spans_successive(spans: Seq<(usize, usize)>) -> bool {
    forall|i: int, j: int|
        0 <= i < j < spans.len() ==> (#[trigger] spans[i]).1 <= (#[trigger] spans[j]).0
}

/// Every group that took part in the match is a range of whole characters of
/// `text`.
pub open spec fn groups_ok(text: Seq<char>, groups: Seq<Option<(usize, usize)>>) -> bool {
    forall|i: int|
        0 <= i < groups.len() ==> match #[trigger] groups[i] {
            Some(m) => span_ok(text, m.0 as int, m.1 as int),
            None => true,
        }
}

/// `Regex::find` on a freshly compiled `pattern`. Believed: the result is the
/// named one, and a match is a range of whole characters of `text`.
#[verifier::external_body]
pub(crate) fn find(pattern: &str, text: &str) -> (found: Option<(usize, usize)>)
    ensures
        found == regex_find(pattern@, text@),
        found matches Some(m) ==> span_ok(text@, m.0 as int, m.1 as int),
{
    match Regex::new(pattern) {
        Ok(re) => re.find(text).map(|m| (m.start(), m.end())),
        Err(_) => None,
    }
}

/// `Regex::find_iter` on a freshly compiled `pattern`. Believed: the result
/// is the named one, every match is a range of whole characters of `text`,
/// and the matches come in order without overlap.
#[verifier::external_body]
pub(crate) fn find_iter(pattern: &str, text: &str) -> (found: Vec<(usize, usize)>)
    ensures
        found@ == regex_find_iter(pattern@, text@),
        spans_ok(text@, found@),
        spans_successive(found@),
{
    match Regex::new(pattern) {
        Ok(re) => re.find_iter(text).map(|m| (m.start(), m.end())).collect(),
        Err(_) => Vec::new(),
    }
}

/// `Regex::captures` on a freshly compiled `pattern`. Believed: the result is
/// the named one, group 0 is present, and every group that took part is a
/// range of whole characters of `text`.
#[verifier::external_body]
pub(crate) fn captures(pattern: &str, text: &str) -> (found: Option<Vec<Option<(usize, usize)>>>)
    ensures
        match found {
            Some(groups) => regex_captures(pattern@, text@) == Some(groups@),
            None => regex_captures(pattern@, text@) is None,
        },
        found matches Some(groups) ==> groups@.len() >= 1 && groups@[0] is Some && groups_ok(
            text@,
            groups@,
        ),
{
    match Regex::new(pattern) {
        Ok(re) => re.captures(text).map(
            |caps| (0..caps.len()).map(|i| caps.get(i).map(|m| (m.start(), m.end()))).collect(),
        ),
        Err(_) => None,
    }
}

/// `Regex::replace_all` on a freshly compiled `pattern`, for a replacement
/// that holds no `$`. Believed: the result is the text with the replacement
/// in place of every match that `Regex::find_iter` yields.
#[verifier::external_body]
pub(crate) fn replace_all(pattern: &str, text: &str, replacement: &str) -> (replaced: String)
    requires
        plain(replacement@),
    ensures
        replaced@ == replaced_from(text@, regex_find_iter(pattern@, text@), 0, replacement@),
{
    match Regex::new(pattern) {
        Ok(re) => re.replace_all(text, replacement).into_owned(),
        Err(_) => text.to_owned(),
    }
}

} // verus!
