//! The parser that turns newly appended text into log records.
//!
//! A delta is cleaned of the metadata headers that the log producer puts
//! before and between its lines. Lines that show a special event are taken
//! out and give synthetic records. What is left is split at every record
//! marker, and each block gives a structured record. The records come back in
//! the order of the text they stand for.

use vstd::prelude::*;
use vstd::string::*;
use vstd::utf8::*;
pub use crate::log_item::LogItem;
use crate::log_item::{fresh_id, synthetic_text, RecordText};
use crate::matching::{
    captures, find, find_iter, groups_ok, regex_captures, regex_find, regex_find_iter,
    replace_all, replaced_from, spans_ok, spans_successive,
};
use crate::sorting::{arranged, ascending, lemma_order_of, order_of, places, sort_by_position, Placed};
pub use crate::special_events::{EventMatcher, MatchedEvent};
use crate::special_events::{
    ends, event_spans, marker_spans, ranges_ok, PauseMatcher, ResumeMatcher, PAUSE_LABEL,
    PAUSE_MARKER, RESUME_LABEL, RESUME_MARKER,
};
use crate::text::{
    byte_len, byte_slice, control_code, decode_lossy, lemma_byte_slice_all, lemma_encode_concat,
    lemma_ends_on_boundary, lemma_slice_bytes, len_bytes, lossy_text, on_boundary, slice, span_ok,
    trimmed, white_space,
};

verus! {

/// The metadata header where it begins the delta: a bracketed time stamp
/// down to milliseconds, a bracketed severity, and the line break behind them.
pub const LEADING_HEADER: &'static str =
    r"^\[\d{4}-\d{2}-\d{2} \d{2}:\d{2}:\d{2}\.\d{3}\] \[\w+\]\s*\n?";

/// The same header anywhere in the delta.
pub const INLINE_HEADER: &'static str =
    r"\[\d{4}-\d{2}-\d{2} \d{2}:\d{2}:\d{2}\.\d{3}\] \[\w+\]\s*";

/// The marker that begins a record.
pub const ITEM_SEP: &'static str = r"## \d{4}-\d{2}-\d{2} \d{2}:\d{2}:\d{2}";

/// A block: the marker, the time stamp (group 1) and the body (group 2).
pub const ITEM_PARSE: &'static str = r"(?s)^## (\d{4}-\d{2}-\d{2} \d{2}:\d{2}:\d{2})\s*(.*)";

/// A body of the form `[origin] LEVEL ## [tag] message`: groups 1 to 4.
pub const CONTENT_HEADER: &'static str = r"(?xs)
          ^\[(?P<origin>[^\]]+)]\s*
          (?P<level>[A-Z]+)\s*
          \#\#\s*
          \[(?P<tag>[^\]]+)]\s*
          (?P<msg>.*)";

/// `text` from the end of a match on, or all of it where nothing matched.
pub open spec fn cut_front(text: Seq<char>, found: Option<(usize, usize)>) -> Seq<char> {
    match found {
        Some(m) => byte_slice(text, m.1 as int, byte_len(text)),
        None => text,
    }
}

/// `text` without a metadata header at its beginning.
pub open spec fn without_leading_header(text: Seq<char>) -> Seq<char> {
    cut_front(text, regex_find(LEADING_HEADER@, text))
}

/// `text` without any metadata header: what stands between the matches of
/// the header expression.
pub open spec fn without_inline_headers(text: Seq<char>) -> Seq<char> {
    replaced_from(text, regex_find_iter(INLINE_HEADER@, text), 0, Seq::empty())
}

/// Matches as byte ranges.
pub open spec fn as_ranges(found: Seq<(usize, usize)>) -> Seq<(int, int)> {
    Seq::new(found.len(), |i: int| (found[i].0 as int, found[i].1 as int))
}

/// Drops everything up to the end of a match, if there is one.
pub fn drop_through<'a>(s: &'a str, found: Option<(usize, usize)>) -> (rest: &'a str)
    requires
        found matches Some(m) ==> span_ok(s@, m.0 as int, m.1 as int),
    ensures
        rest@ == cut_front(s@, found),
{
    match found {
        Some(m) => {
            proof {
                lemma_ends_on_boundary(s@);
            }
            slice(s, m.1, len_bytes(s))
        },
        None => s,
    }
}

/// Removes a metadata header from the beginning of `s`. Text that does not
/// begin with one comes back unchanged. What is removed is a range of whole
/// characters, so that the result is the end of `s`.
pub fn strip_leading_header(s: &str) -> (rest: &str)
    ensures
        rest@ == without_leading_header(s@),
        regex_find(LEADING_HEADER@, s@) matches Some(m) ==> span_ok(s@, m.0 as int, m.1 as int),
{
    drop_through(s, find(LEADING_HEADER, s))
}

/// Whether the header expression finds a metadata header for
/// `strip_leading_header` to remove.
pub fn begins_with_header(s: &str) -> (b: bool)
    ensures
        b == (regex_find(LEADING_HEADER@, s@) is Some),
{
    find(LEADING_HEADER, s).is_some()
}

/// Removes every metadata header from `s`, wherever it stands. Nothing is
/// added or changed: the result is what is left of `s` when the ranges of
/// the headers are taken out, and `s` itself where there is no header.
pub fn remove_inline_headers(s: &str) -> (cleaned: String)
    ensures
        cleaned@ == without_inline_headers(s@),
        cleaned@ == residual(s@, as_ranges(regex_find_iter(INLINE_HEADER@, s@))),
        regex_find_iter(INLINE_HEADER@, s@).len() == 0 ==> cleaned@ == s@,
        byte_len(cleaned@) <= byte_len(s@),
{
    let found = find_iter(INLINE_HEADER, s);
    proof {
        reveal_strlit("");
        assert(""@ =~= Seq::<char>::empty());
        lemma_removed_is_residual(s@, found@, 0);
        lemma_ends_on_boundary(s@);
        lemma_residual_len(s@, as_ranges(found@), 0);
        lemma_byte_slice_all(s@);
    }
    if found.len() == 0 {
        return s.to_owned();
    }
    replace_all(INLINE_HEADER, s, "")
}

/// Putting nothing in place of matches that come in order is taking their
/// ranges out.
pub proof fn lemma_removed_is_residual(text: Seq<char>, found: Seq<(usize, usize)>, cursor: int)
    requires
        spans_ok(text, found),
        spans_successive(found),
        found.len() > 0 ==> cursor <= found[0].0,
    ensures
        replaced_from(text, found, cursor, Seq::empty()) == residual_from(
            text,
            as_ranges(found),
            cursor,
        ),
        ranges_ok(text, as_ranges(found)),
    decreases found.len(),
{
    if found.len() > 0 {
        let first = found[0];
        let rest = found.drop_first();
        assert(span_ok(text, first.0 as int, first.1 as int));
        assert(as_ranges(found).drop_first() =~= as_ranges(rest));
        assert forall|i: int| 0 <= i < rest.len() implies span_ok(
            text,
            (#[trigger] rest[i]).0 as int,
            rest[i].1 as int,
        ) by {
            assert(rest[i] == found[i + 1]);
        }
        assert forall|i: int, j: int| 0 <= i < j < rest.len() implies (#[trigger] rest[i]).1 <= (#[trigger] rest[j]).0 by {
            assert(rest[i] == found[i + 1] && rest[j] == found[j + 1]);
        }
        if rest.len() > 0 {
            assert(rest[0] == found[1]);
            assert(found[0].1 <= found[1].0);
        }
        lemma_removed_is_residual(text, rest, first.1 as int);
        if first.0 as int == cursor {
            assert(encode_utf8(text).subrange(cursor, cursor) =~= Seq::<u8>::empty());
            assert(byte_slice(text, cursor, cursor) =~= Seq::<char>::empty());
        }
        let kept = byte_slice(text, cursor, first.0 as int);
        assert(kept + Seq::<char>::empty() =~= kept);
    }
    assert forall|i: int| 0 <= i < as_ranges(found).len() implies span_ok(
        text,
        (#[trigger] as_ranges(found)[i]).0,
        as_ranges(found)[i].1,
    ) by {
        assert(span_ok(text, found[i].0 as int, found[i].1 as int));
    }
}

/// What is left when ranges are taken out is no longer than what was there.
pub proof fn lemma_residual_len(text: Seq<char>, cuts: Seq<(int, int)>, cursor: int)
    requires
        ranges_ok(text, cuts),
        on_boundary(text, cursor),
    ensures
        byte_len(residual_from(text, cuts, cursor)) <= byte_len(text) - cursor,
    decreases cuts.len(),
{
    lemma_ends_on_boundary(text);
    if cuts.len() == 0 {
        lemma_slice_bytes(text, cursor, byte_len(text));
    } else {
        let cut = cuts[0];
        assert(span_ok(text, cut.0, cut.1));
        let kept = if cut.0 > cursor {
            byte_slice(text, cursor, cut.0)
        } else {
            Seq::empty()
        };
        let next = if cut.1 > cursor {
            cut.1
        } else {
            cursor
        };
        lemma_encode_concat(kept, residual_from(text, cuts.drop_first(), next));
        if cut.0 > cursor {
            lemma_slice_bytes(text, cursor, cut.0);
        }
        assert forall|i: int| 0 <= i < cuts.drop_first().len() implies span_ok(
            text,
            (#[trigger] cuts.drop_first()[i]).0,
            cuts.drop_first()[i].1,
        ) by {
            assert(cuts.drop_first()[i] == cuts[i + 1]);
        }
        lemma_residual_len(text, cuts.drop_first(), next);
    }
}

/// Stripping a leading header a second time changes nothing, provided that
/// what the first stripping left does not itself begin with a header. (Two
/// headers in a row at the beginning of a delta are removed one per pass.)
pub proof fn lemma_strip_leading_header_idempotent(text: Seq<char>)
    requires
        regex_find(LEADING_HEADER@, without_leading_header(text)) is None,
    ensures
        without_leading_header(without_leading_header(text)) == without_leading_header(text),
{
}

/// Capture groups as they are handed to specifications.
pub open spec fn groups_of(caps: Option<Vec<Option<(usize, usize)>>>) -> Option<
    Seq<Option<(usize, usize)>>,
> {
    match caps {
        Some(groups) => Some(groups@),
        None => None,
    }
}

/// The text of capture group `i`; empty if there is no such group or it took
/// no part in the match.
pub open spec fn group_text(text: Seq<char>, groups: Seq<Option<(usize, usize)>>, i: int) -> Seq<
    char,
> {
    if 0 <= i < groups.len() {
        match groups[i] {
            Some(m) => byte_slice(text, m.0 as int, m.1 as int),
            None => Seq::empty(),
        }
    } else {
        Seq::empty()
    }
}

/// The text of capture group `i`.
pub fn group<'a>(text: &'a str, groups: &Vec<Option<(usize, usize)>>, i: usize) -> (part: &'a str)
    requires
        groups_ok(text@, groups@),
    ensures
        part@ == group_text(text@, groups@, i as int),
{
    proof {
        reveal_strlit("");
        assert(""@ =~= Seq::<char>::empty());
    }
    if i < groups.len() {
        match groups[i] {
            Some(m) => slice(text, m.0, m.1),
            None => "",
        }
    } else {
        ""
    }
}

/// A character that may stand before the first bracket of a body and is
/// passed over: whitespace, a byte-order mark, a control code.
pub open spec fn is_junk(c: char) -> bool {
    white_space(c) || c == '\u{feff}' || control_code(c)
}

/// Whether a character is passed over before the first bracket of a body.
pub fn junk(c: char) -> (b: bool)
    ensures
        b == is_junk(c),
{
    c.is_whitespace() || c == '\u{feff}' || c.is_control()
}

/// Number of characters at the front of `text` that are passed over.
pub open spec fn leading_junk(text: Seq<char>) -> int
    decreases text.len(),
{
    if text.len() > 0 && is_junk(text[0]) {
        1 + leading_junk(text.drop_first())
    } else {
        0
    }
}

/// `str::trim_start_matches` with `junk` as the test. Believed, as its
/// documentation says: the result is the text behind the longest run of
/// characters at its front for which the test holds.
#[verifier::external_body]
fn skip_junk<'a>(s: &'a str) -> (rest: &'a str)
    ensures
        rest@ == s@.skip(leading_junk(s@)),
{
    s.trim_start_matches(|c: char| junk(c))
}

/// Origin, level, tag and message of a body.
pub struct Header {
    pub origin: Seq<char>,
    pub level: Seq<char>,
    pub tag: Seq<char>,
    pub message: Seq<char>,
}

/// The header fields of `line`, given the groups that the header expression
/// captured in it: the trimmed groups 1 to 4, or, where it did not match, no
/// fields and the trimmed line as the message.
pub open spec fn header_from(line: Seq<char>, caps: Option<Seq<Option<(usize, usize)>>>) -> Header {
    match caps {
        Some(groups) => Header {
            origin: trimmed(group_text(line, groups, 1)),
            level: trimmed(group_text(line, groups, 2)),
            tag: trimmed(group_text(line, groups, 3)),
            message: trimmed(group_text(line, groups, 4)),
        },
        None => Header {
            origin: Seq::empty(),
            level: Seq::empty(),
            tag: Seq::empty(),
            message: trimmed(line),
        },
    }
}

/// The header fields of a body.
pub open spec fn header_of(line: Seq<char>) -> Header {
    let rest = line.skip(leading_junk(line));
    header_from(rest, regex_captures(CONTENT_HEADER@, rest))
}

/// Takes the header fields out of `line`, given what the header expression
/// captured in it.
pub fn split_captured(line: &str, caps: &Option<Vec<Option<(usize, usize)>>>) -> (fields: (
    String,
    String,
    String,
    String,
))
    requires
        caps matches Some(groups) ==> groups_ok(line@, groups@),
    ensures
        header_from(line@, groups_of(*caps)) == (Header {
            origin: fields.0@,
            level: fields.1@,
            tag: fields.2@,
            message: fields.3@,
        }),
{
    match caps {
        Some(groups) => (
            group(line, groups, 1).trim().to_owned(),
            group(line, groups, 2).trim().to_owned(),
            group(line, groups, 3).trim().to_owned(),
            group(line, groups, 4).trim().to_owned(),
        ),
        None => (String::new(), String::new(), String::new(), line.trim().to_owned()),
    }
}

/// Splits `[origin] LEVEL ## [tag] message` into origin, level, tag and
/// message. A body of another shape has no origin, level or tag and is its
/// own message. Whitespace, a byte-order mark and control codes before the
/// first bracket are passed over.
pub fn split_header(line: &str) -> (fields: (String, String, String, String))
    ensures
        header_of(line@) == (Header {
            origin: fields.0@,
            level: fields.1@,
            tag: fields.2@,
            message: fields.3@,
        }),
{
    let rest = skip_junk(line);
    let caps = captures(CONTENT_HEADER, rest);
    split_captured(rest, &caps)
}

/// Time stamp and trimmed body of a block, given what the block expression
/// captured in it; `None` where it did not match.
pub open spec fn block_from(block: Seq<char>, caps: Option<Seq<Option<(usize, usize)>>>) -> Option<
    (Seq<char>, Seq<char>),
> {
    match caps {
        Some(groups) => Some((group_text(block, groups, 1), trimmed(group_text(block, groups, 2)))),
        None => None,
    }
}

/// What a record made from a block says before its body is taken apart: the
/// time stamp, and the body as content and as raw content.
pub open spec fn block_text(parts: (Seq<char>, Seq<char>)) -> RecordText {
    RecordText {
        time: parts.0,
        level: Seq::empty(),
        origin: Seq::empty(),
        tag: Seq::empty(),
        content: parts.1,
        raw_content: parts.1,
    }
}

/// What the record of a block says, if the block gives one.
pub open spec fn block_record(block: Seq<char>) -> Option<RecordText> {
    match block_from(block, regex_captures(ITEM_PARSE@, block)) {
        Some(parts) => Some(block_text(parts)),
        None => None,
    }
}

/// Makes the record of a block from what the block expression captured in it.
/// The record gets a new identity.
pub fn item_from_captures(block: &str, caps: &Option<Vec<Option<(usize, usize)>>>) -> (item: Option<
    LogItem,
>)
    requires
        caps matches Some(groups) ==> groups_ok(block@, groups@),
    ensures
        match item {
            Some(it) => block_from(block@, groups_of(*caps)) is Some && it.text() == block_text(
                block_from(block@, groups_of(*caps))->0,
            ) && it.folded_count == 1,
            None => block_from(block@, groups_of(*caps)) is None,
        },
{
    match caps {
        Some(_) => item_with_id(block, caps, fresh_id()),
        None => None,
    }
}

/// Makes the record of a block, with the identity `id`, from what the block
/// expression captured in it.
pub fn item_with_id(block: &str, caps: &Option<Vec<Option<(usize, usize)>>>, id: u128) -> (item:
    Option<LogItem>)
    requires
        caps matches Some(groups) ==> groups_ok(block@, groups@),
    ensures
        match item {
            Some(it) => it.id == id && block_from(block@, groups_of(*caps)) is Some && it.text()
                == block_text(block_from(block@, groups_of(*caps))->0) && it.folded_count == 1,
            None => block_from(block@, groups_of(*caps)) is None,
        },
{
    match caps {
        Some(groups) => {
            let raw = group(block, groups, 2).trim();
            Some(
                LogItem {
                    id,
                    time: group(block, groups, 1).to_owned(),
                    level: String::new(),
                    origin: String::new(),
                    tag: String::new(),
                    content: raw.to_owned(),
                    raw_content: raw.to_owned(),
                    folded_count: 1,
                },
            )
        },
        None => None,
    }
}

/// Parses one block: the record marker, a time stamp, and the body. A block
/// of another shape gives no record.
pub fn parse_structured(block: &str) -> (item: Option<LogItem>)
    ensures
        match item {
            Some(it) => block_record(block@) == Some(it.text()) && it.folded_count == 1,
            None => block_record(block@) is None,
        },
{
    let caps = captures(ITEM_PARSE, block);
    item_from_captures(block, &caps)
}

/// What a structured record says once its body is taken apart: the header
/// fields of its content, and the message as its content.
pub open spec fn decomposed(text: RecordText) -> RecordText {
    let header = header_of(text.content);
    RecordText {
        time: text.time,
        level: header.level,
        origin: header.origin,
        tag: header.tag,
        content: header.message,
        raw_content: text.raw_content,
    }
}

/// What the finished record of a block says, if the block gives one.
pub open spec fn structured_record(block: Seq<char>) -> Option<RecordText> {
    match block_record(block) {
        Some(text) => Some(decomposed(text)),
        None => None,
    }
}

/// Fills origin, level and tag from the record's content and leaves the
/// message as its content. Identity, time and raw content stay.
pub fn decompose(item: LogItem) -> (out: LogItem)
    ensures
        out.text() == decomposed(item.text()),
        out.id == item.id,
        out.folded_count == item.folded_count,
{
    let (origin, level, tag, message) = split_header(item.content.as_str());
    LogItem {
        id: item.id,
        time: item.time,
        level,
        origin,
        tag,
        content: message,
        raw_content: item.raw_content,
        folded_count: item.folded_count,
    }
}

/// What is left of `text` from byte `cursor` on when the ranges `cuts` are
/// taken out, from left to right. Ranges may overlap.
pub open spec fn residual_from(text: Seq<char>, cuts: Seq<(int, int)>, cursor: int) -> Seq<char>
    decreases cuts.len(),
{
    if cuts.len() == 0 {
        byte_slice(text, cursor, byte_len(text))
    } else {
        let kept = if cuts[0].0 > cursor {
            byte_slice(text, cursor, cuts[0].0)
        } else {
            Seq::empty()
        };
        kept + residual_from(
            text,
            cuts.drop_first(),
            if cuts[0].1 > cursor {
                cuts[0].1
            } else {
                cursor
            },
        )
    }
}

/// What is left of `text` when the ranges `cuts` are taken out.
pub open spec fn residual(text: Seq<char>, cuts: Seq<(int, int)>) -> Seq<char> {
    residual_from(text, cuts, 0)
}

/// The offset in the full text of the byte that stands at offset `at` of
/// what `residual_from` leaves. Offsets behind the end give `len`, the end
/// of the full text.
pub open spec fn restored_from(cuts: Seq<(int, int)>, cursor: int, at: int, len: int) -> int
    decreases cuts.len(),
{
    if cuts.len() == 0 {
        if at <= len - cursor {
            cursor + at
        } else {
            len
        }
    } else {
        let kept = if cuts[0].0 > cursor {
            cuts[0].0 - cursor
        } else {
            0
        };
        if at < kept {
            cursor + at
        } else {
            restored_from(
                cuts.drop_first(),
                if cuts[0].1 > cursor {
                    cuts[0].1
                } else {
                    cursor
                },
                at - kept,
                len,
            )
        }
    }
}

/// The offset in the full text of the byte at offset `at` of the residual text.
pub open spec fn restored(cuts: Seq<(int, int)>, at: int, len: int) -> int {
    restored_from(cuts, 0, at, len)
}

/// Taking ranges out of a text moves its bytes but does not change them:
/// the byte at an offset of what is left from `cursor` on is the byte of the
/// full text at the restored offset, which lies at or behind `cursor`.
pub proof fn lemma_restored_byte_from(text: Seq<char>, cuts: Seq<(int, int)>, cursor: int, at: int)
    requires
        ranges_ok(text, cuts),
        on_boundary(text, cursor),
        0 <= at < byte_len(residual_from(text, cuts, cursor)),
    ensures
        cursor <= restored_from(cuts, cursor, at, byte_len(text)) < byte_len(text),
        encode_utf8(residual_from(text, cuts, cursor))[at] == encode_utf8(text)[restored_from(
            cuts,
            cursor,
            at,
            byte_len(text),
        )],
    decreases cuts.len(),
{
    let bytes = encode_utf8(text);
    lemma_ends_on_boundary(text);
    if cuts.len() == 0 {
        lemma_slice_bytes(text, cursor, byte_len(text));
    } else {
        let cut = cuts[0];
        assert(span_ok(text, cut.0, cut.1));
        let kept = if cut.0 > cursor {
            byte_slice(text, cursor, cut.0)
        } else {
            Seq::empty()
        };
        let next = if cut.1 > cursor {
            cut.1
        } else {
            cursor
        };
        let rest = residual_from(text, cuts.drop_first(), next);
        lemma_encode_concat(kept, rest);
        if cut.0 > cursor {
            lemma_slice_bytes(text, cursor, cut.0);
        }
        assert forall|i: int| 0 <= i < cuts.drop_first().len() implies span_ok(
            text,
            (#[trigger] cuts.drop_first()[i]).0,
            cuts.drop_first()[i].1,
        ) by {
            assert(cuts.drop_first()[i] == cuts[i + 1]);
        }
        if at >= encode_utf8(kept).len() {
            lemma_restored_byte_from(text, cuts.drop_first(), next, at - encode_utf8(kept).len());
        }
    }
}

/// The byte at an offset of the residual text is the byte of the full text
/// at the restored offset.
pub proof fn lemma_restored_byte(text: Seq<char>, cuts: Seq<(int, int)>, at: int)
    requires
        ranges_ok(text, cuts),
        0 <= at < byte_len(residual(text, cuts)),
    ensures
        0 <= restored(cuts, at, byte_len(text)) < byte_len(text),
        encode_utf8(residual(text, cuts))[at] == encode_utf8(text)[restored(
            cuts,
            at,
            byte_len(text),
        )],
{
    lemma_ends_on_boundary(text);
    lemma_restored_byte_from(text, cuts, 0, at);
}

/// Later offsets of the residual text are restored to later offsets of the
/// full text.
pub proof fn lemma_restored_ascending(cuts: Seq<(int, int)>, cursor: int, a: int, b: int, len: int)
    requires
        0 <= a <= b,
        0 <= cursor <= len,
        forall|i: int| 0 <= i < cuts.len() ==> (#[trigger] cuts[i]).0 <= cuts[i].1 <= len,
    ensures
        cursor <= restored_from(cuts, cursor, a, len) <= restored_from(cuts, cursor, b, len) <= len,
    decreases cuts.len(),
{
    if cuts.len() > 0 {
        let cut = cuts[0];
        let kept = if cut.0 > cursor {
            cut.0 - cursor
        } else {
            0
        };
        let next = if cut.1 > cursor {
            cut.1
        } else {
            cursor
        };
        assert forall|i: int| 0 <= i < cuts.drop_first().len() implies (#[trigger] cuts.drop_first()[i]).0
            <= cuts.drop_first()[i].1 <= len by {
            assert(cuts.drop_first()[i] == cuts[i + 1]);
        }
        if a >= kept {
            lemma_restored_ascending(cuts.drop_first(), next, a - kept, b - kept, len);
        } else if b >= kept {
            lemma_restored_ascending(cuts.drop_first(), next, b - kept, b - kept, len);
        }
    }
}

/// Takes the ranges of the events out of `text`, from left to right.
pub fn cut_spans(text: &str, events: &Vec<MatchedEvent>) -> (rest: String)
    requires
        ranges_ok(text@, event_spans(events@)),
    ensures
        rest@ == residual(text@, event_spans(events@)),
{
    let ghost cuts = event_spans(events@);
    let mut rest = String::new();
    let mut cursor: usize = 0;
    let mut i: usize = 0;
    proof {
        lemma_ends_on_boundary(text@);
        assert(cuts.skip(0) =~= cuts);
        assert(rest@ + residual_from(text@, cuts, 0) =~= residual_from(text@, cuts, 0));
    }
    while i < events.len()
        invariant
            i <= events@.len(),
            cuts == event_spans(events@),
            ranges_ok(text@, cuts),
            span_ok(text@, cursor as int, cursor as int),
            rest@ + residual_from(text@, cuts.skip(i as int), cursor as int) == residual(
                text@,
                cuts,
            ),
        decreases events@.len() - i,
    {
        let ghost before = rest@;
        let ghost tail = cuts.skip(i as int);
        let start = events[i].span.start;
        let end = events[i].span.end;
        proof {
            assert(tail[0] == cuts[i as int]);
            assert(cuts[i as int] == (start as int, end as int));
            assert(span_ok(text@, cuts[i as int].0, cuts[i as int].1));
            assert(tail.drop_first() =~= cuts.skip(i + 1));
        }
        if start > cursor {
            rest.append(slice(text, cursor, start));
        }
        let ghost kept = if start > cursor {
            byte_slice(text@, cursor as int, start as int)
        } else {
            Seq::empty()
        };
        if end > cursor {
            cursor = end;
        }
        proof {
            assert(rest@ =~= before + kept);
            assert((before + kept) + residual_from(text@, cuts.skip(i + 1), cursor as int)
                =~= before + (kept + residual_from(text@, cuts.skip(i + 1), cursor as int)));
        }
        i += 1;
    }
    proof {
        lemma_ends_on_boundary(text@);
        assert(cuts.skip(i as int).len() == 0);
    }
    let ghost before = rest@;
    rest.append(slice(text, cursor, len_bytes(text)));
    rest
}

/// Maps an offset of the residual text back to the text that the ranges of
/// the events were taken out of.
pub fn restore_offset(text: &str, events: &Vec<MatchedEvent>, at: usize) -> (pos: usize)
    requires
        ranges_ok(text@, event_spans(events@)),
    ensures
        pos as int == restored(event_spans(events@), at as int, byte_len(text@)),
        pos <= byte_len(text@),
{
    let ghost cuts = event_spans(events@);
    let len = len_bytes(text);
    let mut cursor: usize = 0;
    let mut left: usize = at;
    let mut i: usize = 0;
    assert(cuts.skip(0) =~= cuts);
    while i < events.len()
        invariant
            i <= events@.len(),
            cuts == event_spans(events@),
            ranges_ok(text@, cuts),
            len as int == byte_len(text@),
            cursor <= len,
            restored_from(cuts.skip(i as int), cursor as int, left as int, len as int) == restored(
                cuts,
                at as int,
                len as int,
            ),
        decreases events@.len() - i,
    {
        let ghost tail = cuts.skip(i as int);
        let start = events[i].span.start;
        let end = events[i].span.end;
        proof {
            assert(tail[0] == cuts[i as int]);
            assert(cuts[i as int] == (start as int, end as int));
            assert(span_ok(text@, cuts[i as int].0, cuts[i as int].1));
            assert(tail.drop_first() =~= cuts.skip(i + 1));
        }
        let kept: usize = if start > cursor {
            start - cursor
        } else {
            0
        };
        if left < kept {
            return cursor + left;
        }
        left = left - kept;
        if end > cursor {
            cursor = end;
        }
        i += 1;
    }
    assert(cuts.skip(i as int).len() == 0);
    if left <= len - cursor {
        cursor + left
    } else {
        len
    }
}

/// A record and the byte offset of the text it stands for.
pub struct Positioned {
    pub pos: usize,
    pub item: LogItem,
}

impl Placed for Positioned {
    open spec fn place(&self) -> usize {
        self.pos
    }

    fn position(&self) -> (p: usize) {
        self.pos
    }
}

/// What a record says, and the byte offset of the text it stands for.
pub struct Located {
    pub pos: int,
    pub text: RecordText,
}

/// Offsets and texts of records.
pub open spec fn located(items: Seq<Positioned>) -> Seq<Located> {
    Seq::new(items.len(), |i: int| Located { pos: items[i].pos as int, text: items[i].item.text() })
}

/// The offsets of located texts.
pub open spec fn positions(layout: Seq<Located>) -> Seq<int> {
    Seq::new(layout.len(), |i: int| layout[i].pos)
}

/// Every record counts once.
pub open spec fn unfolded(items: Seq<Positioned>) -> bool {
    forall|i: int| 0 <= i < items.len() ==> (#[trigger] items[i]).item.folded_count == 1
}

/// Where block `i` ends: where the next block begins, or at the end of the text.
pub open spec fn block_end(starts: Seq<(usize, usize)>, i: int, len: int) -> int {
    if i + 1 < starts.len() {
        starts[i + 1].0 as int
    } else {
        len
    }
}

/// Block `i`: the text from record marker `i` to the next one.
pub open spec fn block_at(rest: Seq<char>, starts: Seq<(usize, usize)>, i: int) -> Seq<char> {
    byte_slice(rest, starts[i].0 as int, block_end(starts, i, byte_len(rest)))
}

/// The structured records of the first `n` blocks of the residual text
/// `rest`, each at the offset that its block has in the full text.
pub open spec fn structured_upto(
    rest: Seq<char>,
    starts: Seq<(usize, usize)>,
    cuts: Seq<(int, int)>,
    len: int,
    n: int,
) -> Seq<Located>
    decreases n,
{
    if n <= 0 {
        Seq::empty()
    } else {
        let head = structured_upto(rest, starts, cuts, len, n - 1);
        match structured_record(block_at(rest, starts, n - 1)) {
            Some(text) => head.push(
                Located { pos: restored(cuts, starts[n - 1].0 as int, len), text },
            ),
            None => head,
        }
    }
}

/// Splits the residual text `rest` at the record markers `starts` and parses
/// each block. Text before the first marker belongs to no block. Each record
/// gets the offset that its block has in `body`, the text that `rest` is left
/// of when the ranges of `events` are taken out.
pub fn parse_blocks(
    rest: &str,
    starts: &Vec<(usize, usize)>,
    body: &str,
    events: &Vec<MatchedEvent>,
) -> (items: Vec<Positioned>)
    requires
        spans_ok(rest@, starts@),
        spans_successive(starts@),
        ranges_ok(body@, event_spans(events@)),
    ensures
        located(items@) == structured_upto(
            rest@,
            starts@,
            event_spans(events@),
            byte_len(body@),
            starts@.len() as int,
        ),
        unfolded(items@),
{
    let ghost cuts = event_spans(events@);
    let len = len_bytes(rest);
    let mut items: Vec<Positioned> = Vec::new();
    let mut i: usize = 0;
    assert(located(items@) =~= structured_upto(rest@, starts@, cuts, byte_len(body@), 0));
    while i < starts.len()
        invariant
            i <= starts@.len(),
            len as int == byte_len(rest@),
            cuts == event_spans(events@),
            spans_ok(rest@, starts@),
            spans_successive(starts@),
            ranges_ok(body@, cuts),
            located(items@) == structured_upto(rest@, starts@, cuts, byte_len(body@), i as int),
            unfolded(items@),
        decreases starts@.len() - i,
    {
        let ghost before = located(items@);
        let from = starts[i].0;
        assert(span_ok(rest@, starts@[i as int].0 as int, starts@[i as int].1 as int));
        let to = if i + 1 < starts.len() {
            assert(span_ok(rest@, starts@[i + 1].0 as int, starts@[i + 1].1 as int));
            assert(starts@[i as int].1 <= starts@[i + 1].0);
            starts[i + 1].0
        } else {
            proof {
                lemma_ends_on_boundary(rest@);
            }
            len
        };
        let block = slice(rest, from, to);
        assert(block@ == block_at(rest@, starts@, i as int));
        match parse_structured(block) {
            Some(item) => {
                let pos = restore_offset(body, events, from);
                let item = decompose(item);
                items.push(Positioned { pos, item });
                assert(located(items@) =~= before.push(
                    Located { pos: pos as int, text: item.text() },
                ));
            },
            None => {},
        }
        i += 1;
    }
    items
}

/// An event and the label of its record, as specifications speak of them.
pub struct Marked {
    pub span: (int, int),
    pub label: Seq<char>,
}

/// The events that say `label`, one for each range.
pub open spec fn marked(spans: Seq<(int, int)>, label: Seq<char>) -> Seq<Marked> {
    Seq::new(spans.len(), |i: int| Marked { span: spans[i], label })
}

/// Where each event begins.
pub open spec fn marked_starts(events: Seq<Marked>) -> Seq<int> {
    Seq::new(events.len(), |i: int| events[i].span.0)
}

/// The ranges of events.
pub open spec fn marked_spans(events: Seq<Marked>) -> Seq<(int, int)> {
    Seq::new(events.len(), |i: int| events[i].span)
}

/// The records of events, each where its range begins.
pub open spec fn marked_located(events: Seq<Marked>) -> Seq<Located> {
    Seq::new(
        events.len(),
        |i: int| Located { pos: events[i].span.0, text: synthetic_text(events[i].label) },
    )
}

/// The special events of `text`: the pauses, then the resumes.
pub open spec fn special_events(text: Seq<char>) -> Seq<Marked> {
    marked(marker_spans(text, regex_find_iter(PAUSE_MARKER@, text)), PAUSE_LABEL@) + marked(
        marker_spans(text, regex_find_iter(RESUME_MARKER@, text)),
        RESUME_LABEL@,
    )
}

/// The special events of `text` by where they begin.
pub open spec fn special_events_in_order(text: Seq<char>) -> Seq<Marked> {
    arranged(order_of(marked_starts(special_events(text))), special_events(text))
}

/// `events` are the records and ranges of `described`.
pub open spec fn shows(events: Seq<MatchedEvent>, described: Seq<Marked>) -> bool {
    &&& events.len() == described.len()
    &&& forall|i: int|
        0 <= i < events.len() ==> ends((#[trigger] events[i]).span) == described[i].span
            && events[i].item.text() == synthetic_text(described[i].label)
            && events[i].item.folded_count == 1
}

/// Collects the events of every matcher in `text`, by where they begin.
pub fn capture_all(text: &str) -> (events: Vec<MatchedEvent>)
    ensures
        shows(events@, special_events_in_order(text@)),
        ranges_ok(text@, event_spans(events@)),
{
    let mut all = PauseMatcher.capture(text);
    let mut resumes = ResumeMatcher.capture(text);
    let ghost pauses = all@;
    let ghost later = resumes@;
    all.append(&mut resumes);
    let ghost described = special_events(text@);
    proof {
        assert(all@ == pauses + later);
        assert(shows(all@, described)) by {
            assert forall|i: int| 0 <= i < all@.len() implies ends((#[trigger] all@[i]).span)
                == described[i].span && all@[i].item.text() == synthetic_text(described[i].label)
                && all@[i].item.folded_count == 1 by {
                if i < pauses.len() {
                    assert(all@[i] == pauses[i]);
                    assert(event_spans(pauses)[i] == ends(pauses[i].span));
                } else {
                    assert(all@[i] == later[i - pauses.len()]);
                    assert(event_spans(later)[i - pauses.len()] == ends(
                        later[i - pauses.len()].span,
                    ));
                }
            }
        }
        assert(places(all@) =~= marked_starts(described));
        assert(ranges_ok(text@, event_spans(all@))) by {
            assert forall|i: int| 0 <= i < all@.len() implies span_ok(
                text@,
                (#[trigger] event_spans(all@)[i]).0,
                event_spans(all@)[i].1,
            ) by {
                if i < pauses.len() {
                    assert(event_spans(all@)[i] == event_spans(pauses)[i]);
                } else {
                    assert(event_spans(all@)[i] == event_spans(later)[i - pauses.len()]);
                }
            }
        }
        lemma_order_of(places(all@));
    }
    let events = sort_by_position(all);
    proof {
        let order = order_of(places(all@));
        assert forall|i: int| 0 <= i < events@.len() implies span_ok(
            text@,
            (#[trigger] event_spans(events@)[i]).0,
            event_spans(events@)[i].1,
        ) by {
            assert(events@[i] == all@[order[i]]);
            assert(event_spans(events@)[i] == event_spans(all@)[order[i]]);
        }
    }
    events
}

/// The text that records are taken from: the delta without its metadata
/// headers, trimmed.
pub open spec fn delta_body(delta: Seq<char>) -> Seq<char> {
    trimmed(without_inline_headers(without_leading_header(delta)))
}

/// The records of a cleaned text before they are put in order: the special
/// events, then the structured records of what is left when the ranges of
/// the events are taken out.
pub open spec fn body_layout(body: Seq<char>) -> Seq<Located> {
    let events = special_events_in_order(body);
    let cuts = marked_spans(events);
    let rest = residual(body, cuts);
    let starts = regex_find_iter(ITEM_SEP@, rest);
    marked_located(events) + structured_upto(rest, starts, cuts, byte_len(body), starts.len() as int)
}

/// The records of a cleaned text, by the offset of the text they stand for.
/// Records at the same offset come as `body_layout` has them.
pub open spec fn body_records(body: Seq<char>) -> Seq<Located> {
    arranged(order_of(positions(body_layout(body))), body_layout(body))
}

/// The records of a delta. A delta that is empty once cleaned has none.
pub open spec fn delta_records(delta: Seq<char>) -> Seq<Located> {
    if delta_body(delta).len() == 0 {
        Seq::empty()
    } else {
        body_records(delta_body(delta))
    }
}

/// `items` say what `records` say, in the same order, and each counts once.
pub open spec fn says(items: Seq<LogItem>, records: Seq<Located>) -> bool {
    &&& items.len() == records.len()
    &&& forall|i: int|
        0 <= i < items.len() ==> (#[trigger] items[i]).text() == records[i].text
            && items[i].folded_count == 1
}

/// The records of a delta come in the order of the text they stand for.
pub proof fn lemma_delta_records_ascending(delta: Seq<char>)
    ensures
        ascending(positions(delta_records(delta))),
{
    let body = delta_body(delta);
    if body.len() != 0 {
        let layout = body_layout(body);
        lemma_order_of(positions(layout));
        assert(positions(delta_records(delta)) =~= arranged(
            order_of(positions(layout)),
            positions(layout),
        ));
    }
}

/// Makes every record of a cleaned text: the special events, and the
/// structured records of what is left without them. Not yet in order.
pub fn layout_body(body: &str) -> (items: Vec<Positioned>)
    ensures
        located(items@) == body_layout(body@),
        unfolded(items@),
{
    let events = capture_all(body);
    let ghost described = special_events_in_order(body@);
    assert(event_spans(events@) =~= marked_spans(described));
    let rest = cut_spans(body, &events);
    let starts = find_iter(ITEM_SEP, rest.as_str());
    let mut structured = parse_blocks(rest.as_str(), &starts, body, &events);
    let ghost blocks = structured@;
    let mut items: Vec<Positioned> = Vec::new();
    let mut i: usize = 0;
    while i < events.len()
        invariant
            i <= events@.len(),
            shows(events@, described),
            items@.len() == i,
            forall|k: int|
                0 <= k < i ==> (#[trigger] items@[k]).pos == events@[k].span.start && items@[k].item
                    == events@[k].item,
        decreases events@.len() - i,
    {
        items.push(Positioned { pos: events[i].span.start, item: events[i].item.duplicate() });
        i += 1;
    }
    let ghost first = items@;
    assert(located(first) =~= marked_located(described));
    items.append(&mut structured);
    assert(located(items@) =~= located(first) + located(blocks));
    items
}

/// The records of a delta, each with the offset of the text it stands for
/// in the cleaned delta, by ascending offset. Every record gets a new
/// identity; records are never merged.
pub fn process_delta_positioned(delta: &str) -> (items: Vec<Positioned>)
    ensures
        located(items@) == delta_records(delta@),
        unfolded(items@),
        ascending(places(items@)),
{
    let cleaned = remove_inline_headers(strip_leading_header(delta));
    let body = cleaned.as_str().trim();
    if body.is_empty() {
        let none: Vec<Positioned> = Vec::new();
        assert(located(none@) =~= delta_records(delta@));
        return none;
    }
    let layout = layout_body(body);
    assert(places(layout@) =~= positions(located(layout@)));
    proof {
        lemma_order_of(places(layout@));
    }
    let items = sort_by_position(layout);
    assert(located(items@) =~= delta_records(delta@));
    items
}

/// The records of newly read bytes: none for no bytes, else the records of
/// the text that the bytes encode. Bytes that are no valid UTF-8 are read
/// with the replacement character in their place.
pub open spec fn bytes_records(bytes: Seq<u8>) -> Seq<Located> {
    if bytes.len() == 0 {
        Seq::empty()
    } else {
        delta_records(lossy_text(bytes))
    }
}

/// The records of newly read bytes. Bytes that are no valid UTF-8 do not stop
/// the reading.
pub fn process_bytes(bytes: &[u8]) -> (items: Vec<LogItem>)
    ensures
        says(items@, bytes_records(bytes@)),
        valid_utf8(bytes@) && bytes@.len() > 0 ==> says(items@, delta_records(decode_utf8(bytes@))),
{
    if bytes.len() == 0 {
        return Vec::new();
    }
    let text = decode_lossy(bytes);
    process_delta(text.as_str())
}

/// The records of a delta, in the order of the text they stand for.
pub fn process_delta(delta: &str) -> (items: Vec<LogItem>)
    ensures
        says(items@, delta_records(delta@)),
{
    let positioned = process_delta_positioned(delta);
    let mut items: Vec<LogItem> = Vec::new();
    let mut i: usize = 0;
    while i < positioned.len()
        invariant
            i <= positioned@.len(),
            items@.len() == i,
            forall|k: int| 0 <= k < i ==> #[trigger] items@[k] == positioned@[k].item,
        decreases positioned@.len() - i,
    {
        items.push(positioned[i].item.duplicate());
        i += 1;
    }
    assert forall|k: int| 0 <= k < items@.len() implies (#[trigger] items@[k]).text()
        == delta_records(delta@)[k].text && items@[k].folded_count == 1 by {
        assert(located(positioned@)[k].text == positioned@[k].item.text());
    }
    items
}

} // verus!
