//! Log records.

use vstd::prelude::*;
use vstd::string::*;
use vstd::utf8::*;
use uuid::Uuid;
use crate::text::{
    byte_len, byte_slice, contains, find_break, is_substring, lemma_ends_on_boundary, len_bytes,
    lowercase, next_break, on_boundary, slice, trimmed,
};

verus! {

/// One structured or synthetic log record.
#[derive(Debug, Clone)]
pub struct LogItem {
    /// Identity of the record, assigned once when it is created.
    pub id: u128,
    pub time: String,
    pub level: String,
    pub origin: String,
    pub tag: String,
    pub content: String,
    /// The text the record was derived from; filters match against it.
    pub raw_content: String,
    pub folded_count: u32,
}

/// What a record says: every field but its identity.
pub struct RecordText {
    pub time: Seq<char>,
    pub level: Seq<char>,
    pub origin: Seq<char>,
    pub tag: Seq<char>,
    pub content: Seq<char>,
    pub raw_content: Seq<char>,
}

/// The text of a synthetic record: only `label`, as content and as raw content.
pub open spec fn synthetic_text(label: Seq<char>) -> RecordText {
    RecordText {
        time: Seq::empty(),
        level: Seq::empty(),
        origin: Seq::empty(),
        tag: Seq::empty(),
        content: label,
        raw_content: label,
    }
}

/// A new random identity from `Uuid::new_v4`. Nothing is claimed of its
/// value: two calls may return anything.
#[verifier::external_body]
pub(crate) fn fresh_id() -> (id: u128) {
    Uuid::new_v4().as_u128()
}

/// The digit `d` as text.
pub open spec fn digit_text(d: int) -> Seq<char> {
    if d == 0 {
        "0"@
    } else if d == 1 {
        "1"@
    } else if d == 2 {
        "2"@
    } else if d == 3 {
        "3"@
    } else if d == 4 {
        "4"@
    } else if d == 5 {
        "5"@
    } else if d == 6 {
        "6"@
    } else if d == 7 {
        "7"@
    } else if d == 8 {
        "8"@
    } else {
        "9"@
    }
}

/// `n` in decimal digits.
pub open spec fn decimal_text(n: nat) -> Seq<char>
    decreases n,
{
    if n < 10 {
        digit_text(n as int)
    } else {
        decimal_text(n / 10) + digit_text((n % 10) as int)
    }
}

/// What a preview says before its content when the record stands for
/// `folded` equal records: `x`, the number and a space; nothing for one.
pub open spec fn count_prefix(folded: u32) -> Seq<char> {
    if folded > 1 {
        "x"@ + decimal_text(folded as nat) + " "@
    } else {
        Seq::empty()
    }
}

/// A field as a preview shows it: in brackets, with a space behind.
pub open spec fn bracketed(field: Seq<char>) -> Seq<char> {
    "["@ + field + "] "@
}

/// The first line of `content` from byte `from` on that is not empty once
/// trimmed, trimmed; `None` if every line is empty.
pub open spec fn first_line_from(content: Seq<char>, from: int) -> Option<Seq<char>>
    decreases byte_len(content) - from,
{
    let bytes = encode_utf8(content);
    if from > bytes.len() {
        None
    } else {
        let end = next_break(bytes, from);
        let line = trimmed(byte_slice(content, from, end));
        if line.len() > 0 {
            Some(line)
        } else if from <= end < bytes.len() {
            first_line_from(content, end + 1)
        } else {
            None
        }
    }
}

/// The content as a preview shows it: its first line that is not empty once
/// trimmed, or all of it if there is no such line.
pub open spec fn short_content(content: Seq<char>) -> Seq<char> {
    match first_line_from(content, 0) {
        Some(line) => line,
        None => content,
    }
}

/// The one-line preview of a record at a level of detail: the content
/// alone at 0; with the time before it at 1; with time and level at 2; with
/// origin too at 3; with the tag too at 4. Any other level counts as 1.
pub open spec fn preview_text(text: RecordText, folded: u32, detail_level: u8) -> Seq<char> {
    count_prefix(folded) + preview_fields(text, detail_level) + short_content(text.content)
}

/// The fields that a preview shows before the content.
pub open spec fn preview_fields(text: RecordText, detail_level: u8) -> Seq<char> {
    if detail_level == 0 {
        Seq::empty()
    } else if detail_level == 2 {
        bracketed(text.time) + bracketed(text.level)
    } else if detail_level == 3 {
        bracketed(text.time) + bracketed(text.level) + bracketed(text.origin)
    } else if detail_level == 4 {
        bracketed(text.time) + bracketed(text.level) + bracketed(text.origin) + bracketed(text.tag)
    } else {
        bracketed(text.time)
    }
}

/// What is copied for a record: its fields under headings, then its raw content.
pub open spec fn yank_text(text: RecordText) -> Seq<char> {
    "# Formatted Log\n\n## Time:\n\n"@ + text.time + "\n\n## Level:\n\n"@ + text.level
        + "\n\n## Origin:\n\n"@ + text.origin + "\n\n## Tag:\n\n"@ + text.tag
        + "\n\n## Content:\n\n"@ + text.content + "\n\n# Raw Log\n\n"@ + text.raw_content
}

/// The digit `d` as text.
fn digit(d: u32) -> (text: &'static str)
    requires
        d < 10,
    ensures
        text@ == digit_text(d as int),
{
    if d == 0 {
        "0"
    } else if d == 1 {
        "1"
    } else if d == 2 {
        "2"
    } else if d == 3 {
        "3"
    } else if d == 4 {
        "4"
    } else if d == 5 {
        "5"
    } else if d == 6 {
        "6"
    } else if d == 7 {
        "7"
    } else if d == 8 {
        "8"
    } else {
        "9"
    }
}

/// Writes `n` in decimal digits.
pub fn decimal(n: u32) -> (text: String)
    ensures
        text@ == decimal_text(n as nat),
    decreases n,
{
    if n < 10 {
        digit(n).to_owned()
    } else {
        let mut text = decimal(n / 10);
        text.append(digit(n % 10));
        text
    }
}

/// Adds a field in brackets to `line`.
fn push_bracketed(line: &mut String, field: &str)
    ensures
        final(line)@ == old(line)@ + bracketed(field@),
{
    let ghost before = line@;
    line.append("[");
    line.append(field);
    line.append("] ");
    assert(line@ =~= before + bracketed(field@));
}

/// Shortens a content to its first line that says something.
pub fn shorten_content(content: &str) -> (short: String)
    ensures
        short@ == short_content(content@),
{
    let n = len_bytes(content);
    let mut from: usize = 0;
    proof {
        lemma_ends_on_boundary(content@);
    }
    loop
        invariant
            n as int == byte_len(content@),
            from <= n,
            on_boundary(content@, from as int),
            first_line_from(content@, from as int) == first_line_from(content@, 0),
        decreases n - from,
    {
        let end = find_break(content, from);
        let line = slice(content, from, end).trim();
        if !line.is_empty() {
            return line.to_owned();
        }
        if end < n {
            from = end + 1;
        } else {
            return content.to_owned();
        }
    }
}

/// Whether `pattern` occurs in `raw`, letter case aside.
pub open spec fn text_matches(raw: Seq<char>, pattern: Seq<char>) -> bool {
    is_substring(lowercase(pattern), lowercase(raw))
}

impl LogItem {
    /// Whether the record passes a filter for `pattern`.
    pub open spec fn matches(&self, pattern: Seq<char>) -> bool {
        text_matches(self.raw_content@, pattern)
    }

    /// Whether `pattern` occurs in the raw content, letter case aside. The
    /// fields derived from the raw content play no part.
    pub fn contains(&self, pattern: &str) -> (found: bool)
        ensures
            found == self.matches(pattern@),
    {
        let raw = self.raw_content.as_str().to_lowercase();
        let wanted = pattern.to_lowercase();
        contains(raw.as_str(), wanted.as_str())
    }

    /// The one-line preview of the record at a level of detail from 0 to 4.
    pub fn get_preview_text(&self, detail_level: u8) -> (preview: String)
        ensures
            preview@ == preview_text(self.text(), self.folded_count, detail_level),
    {
        let mut preview = String::new();
        if self.folded_count > 1 {
            preview.append("x");
            preview.append(decimal(self.folded_count).as_str());
            preview.append(" ");
        }
        assert(preview@ =~= count_prefix(self.folded_count));
        let mut fields = String::new();
        if detail_level != 0 {
            push_bracketed(&mut fields, self.time.as_str());
        }
        if detail_level == 2 || detail_level == 3 || detail_level == 4 {
            push_bracketed(&mut fields, self.level.as_str());
        }
        if detail_level == 3 || detail_level == 4 {
            push_bracketed(&mut fields, self.origin.as_str());
        }
        if detail_level == 4 {
            push_bracketed(&mut fields, self.tag.as_str());
        }
        assert(fields@ =~= preview_fields(self.text(), detail_level));
        preview.append(fields.as_str());
        preview.append(shorten_content(self.content.as_str()).as_str());
        preview
    }

    /// The text that is copied for the record.
    pub fn make_yank_content(&self) -> (copied: String)
        ensures
            copied@ == yank_text(self.text()),
    {
        let mut copied = String::new();
        copied.append("# Formatted Log\n\n## Time:\n\n");
        copied.append(self.time.as_str());
        copied.append("\n\n## Level:\n\n");
        copied.append(self.level.as_str());
        copied.append("\n\n## Origin:\n\n");
        copied.append(self.origin.as_str());
        copied.append("\n\n## Tag:\n\n");
        copied.append(self.tag.as_str());
        copied.append("\n\n## Content:\n\n");
        copied.append(self.content.as_str());
        copied.append("\n\n# Raw Log\n\n");
        copied.append(self.raw_content.as_str());
        assert(copied@ =~= yank_text(self.text()));
        copied
    }

    /// What the record says.
    pub open spec fn text(&self) -> RecordText {
        RecordText {
            time: self.time@,
            level: self.level@,
            origin: self.origin@,
            tag: self.tag@,
            content: self.content@,
            raw_content: self.raw_content@,
        }
    }

    /// A copy that is equal to `self` in every field.
    pub fn duplicate(&self) -> (copy: LogItem)
        ensures
            copy == *self,
    {
        LogItem {
            id: self.id,
            time: self.time.clone(),
            level: self.level.clone(),
            origin: self.origin.clone(),
            tag: self.tag.clone(),
            content: self.content.clone(),
            raw_content: self.raw_content.clone(),
            folded_count: self.folded_count,
        }
    }

    /// A synthetic record with a new identity: no time, level, origin or
    /// tag, and `label` as its content.
    pub fn synthetic(label: &str) -> (item: LogItem)
        ensures
            item.text() == synthetic_text(label@),
            item.folded_count == 1,
    {
        LogItem::synthetic_with_id(fresh_id(), label)
    }

    /// The synthetic record with the identity `id` and `label` as its content.
    pub fn synthetic_with_id(id: u128, label: &str) -> (item: LogItem)
        ensures
            item.id == id,
            item.text() == synthetic_text(label@),
            item.folded_count == 1,
    {
        LogItem {
            id,
            time: String::new(),
            level: String::new(),
            origin: String::new(),
            tag: String::new(),
            content: label.to_owned(),
            raw_content: label.to_owned(),
            folded_count: 1,
        }
    }
}

} // verus!
