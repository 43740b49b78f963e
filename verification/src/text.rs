//! Text as the parser sees it: characters, addressed by offsets into their
//! UTF-8 encoding.

use vstd::prelude::*;
use vstd::string::*;
use vstd::utf8::*;

verus! {

/// The newline byte.
pub const NEWLINE: u8 = 10;

/// Number of bytes in the UTF-8 encoding of `text`.
pub open spec fn byte_len(text: Seq<char>) -> int {
    encode_utf8(text).len() as int
}

/// Byte offset `i` of `text` lies between two characters, or at either end.
pub open spec fn on_boundary(text: Seq<char>, i: int) -> bool {
    0 <= i <= byte_len(text) && is_char_boundary(encode_utf8(text), i)
}

/// `from..to` is a range of whole characters of `text`.
pub open spec fn span_ok(text: Seq<char>, from: int, to: int) -> bool {
    from <= to && on_boundary(text, from) && on_boundary(text, to)
}

/// The characters of `text` whose encoding occupies the bytes `from..to`.
pub open spec fn byte_slice(text: Seq<char>, from: int, to: int) -> Seq<char>
    recommends
        span_ok(text, from, to),
{
    decode_utf8(encode_utf8(text).subrange(from, to))
}

/// Removing the first character of valid UTF-8 leaves valid UTF-8.
proof fn lemma_pop_valid(bytes: Seq<u8>)
    requires
        valid_utf8(bytes),
        bytes.len() > 0,
    ensures
        valid_utf8(pop_first_scalar(bytes)),
        1 <= length_of_first_scalar(bytes) <= bytes.len(),
        pop_first_scalar(bytes).len() == bytes.len() - length_of_first_scalar(bytes),
{
}

/// A boundary other than 0 lies at or after the end of the first character.
proof fn lemma_boundary_after_first(bytes: Seq<u8>, i: int)
    requires
        valid_utf8(bytes),
        is_char_boundary(bytes, i),
        i > 0,
    ensures
        bytes.len() > 0,
        length_of_first_scalar(bytes) <= i <= bytes.len(),
        is_char_boundary(pop_first_scalar(bytes), i - length_of_first_scalar(bytes)),
{
    reveal_with_fuel(is_char_boundary, 2);
}

/// A boundary of a text is a boundary of what follows an earlier boundary.
pub proof fn lemma_boundary_in_suffix(bytes: Seq<u8>, from: int, to: int)
    requires
        valid_utf8(bytes),
        is_char_boundary(bytes, from),
        is_char_boundary(bytes, to),
        0 <= from <= to <= bytes.len(),
    ensures
        valid_utf8(bytes.subrange(from, bytes.len() as int)),
        is_char_boundary(bytes.subrange(from, bytes.len() as int), to - from),
    decreases from,
{
    valid_utf8_split(bytes, from);
    if from == 0 {
        assert(bytes.subrange(0, bytes.len() as int) =~= bytes);
    } else {
        lemma_boundary_after_first(bytes, from);
        lemma_boundary_after_first(bytes, to);
        lemma_pop_valid(bytes);
        let first = length_of_first_scalar(bytes);
        let rest = pop_first_scalar(bytes);
        lemma_boundary_in_suffix(rest, from - first, to - first);
        assert(rest.subrange(from - first, rest.len() as int) =~= bytes.subrange(
            from,
            bytes.len() as int,
        ));
    }
}

/// The offset just behind the character that starts at a boundary is a boundary.
pub proof fn lemma_boundary_step(bytes: Seq<u8>, i: int)
    requires
        valid_utf8(bytes),
        is_char_boundary(bytes, i),
        0 <= i < bytes.len(),
    ensures
        is_char_boundary(
            bytes,
            i + length_of_first_scalar(bytes.subrange(i, bytes.len() as int)),
        ),
        i + length_of_first_scalar(bytes.subrange(i, bytes.len() as int)) <= bytes.len(),
    decreases i,
{
    lemma_pop_valid(bytes);
    let first = length_of_first_scalar(bytes);
    let rest = pop_first_scalar(bytes);
    if i == 0 {
        assert(bytes.subrange(0, bytes.len() as int) =~= bytes);
        assert(is_char_boundary(rest, 0));
        reveal_with_fuel(is_char_boundary, 2);
    } else {
        lemma_boundary_after_first(bytes, i);
        lemma_boundary_step(rest, i - first);
        assert(rest.subrange(i - first, rest.len() as int) =~= bytes.subrange(
            i,
            bytes.len() as int,
        ));
        reveal_with_fuel(is_char_boundary, 2);
    }
}

/// An ASCII byte is a whole character: the offsets before and behind it are boundaries.
pub proof fn lemma_ascii_byte_boundaries(text: Seq<char>, i: int)
    requires
        0 <= i < byte_len(text),
        encode_utf8(text)[i] < 0x80,
    ensures
        on_boundary(text, i),
        on_boundary(text, i + 1),
{
    let bytes = encode_utf8(text);
    encode_utf8_valid_utf8(text);
    is_char_boundary_iff_not_is_continuation_byte(bytes, i);
    lemma_boundary_step(bytes, i);
    assert(bytes.subrange(i, bytes.len() as int)[0] == bytes[i]);
}

/// Both ends of a text are boundaries.
pub proof fn lemma_ends_on_boundary(text: Seq<char>)
    ensures
        on_boundary(text, 0),
        on_boundary(text, byte_len(text)),
{
    encode_utf8_valid_utf8(text);
    is_char_boundary_start_end_of_seq(encode_utf8(text));
}

/// The whole of a text is the text.
pub proof fn lemma_byte_slice_all(text: Seq<char>)
    ensures
        byte_slice(text, 0, byte_len(text)) == text,
{
    let bytes = encode_utf8(text);
    assert(bytes.subrange(0, bytes.len() as int) =~= bytes);
    encode_utf8_decode_utf8(text);
}

/// The encoding of two texts in a row is their encodings in a row.
pub proof fn lemma_encode_concat(a: Seq<char>, b: Seq<char>)
    ensures
        encode_utf8(a + b) == encode_utf8(a) + encode_utf8(b),
    decreases a.len(),
{
    if a.len() == 0 {
        assert(a + b =~= b);
        assert(encode_utf8(a) + encode_utf8(b) =~= encode_utf8(b));
    } else {
        assert((a + b).drop_first() =~= a.drop_first() + b);
        assert((a + b)[0] == a[0]);
        lemma_encode_concat(a.drop_first(), b);
        assert(encode_utf8(a + b) =~= encode_utf8(a) + encode_utf8(b));
    }
}

/// The encoding of a part of a text is that part of the text's encoding.
pub proof fn lemma_slice_bytes(text: Seq<char>, from: int, to: int)
    requires
        span_ok(text, from, to),
    ensures
        encode_utf8(byte_slice(text, from, to)) == encode_utf8(text).subrange(from, to),
{
    let bytes = encode_utf8(text);
    encode_utf8_valid_utf8(text);
    lemma_boundary_in_suffix(bytes, from, to);
    let suffix = bytes.subrange(from, bytes.len() as int);
    valid_utf8_split(suffix, to - from);
    assert(suffix.subrange(0, to - from) =~= bytes.subrange(from, to));
    decode_utf8_encode_utf8(bytes.subrange(from, to));
}

/// Where the line that holds byte offset `at` begins: behind the last
/// newline before `at`, or at 0.
pub open spec fn line_start(bytes: Seq<u8>, at: int) -> int
    decreases at,
{
    if at <= 0 {
        0
    } else if bytes[at - 1] == NEWLINE {
        at
    } else {
        line_start(bytes, at - 1)
    }
}

/// Where the line that holds byte offset `at` ends: behind the first newline
/// at or after `at`, or at the end of the text.
pub open spec fn line_end(bytes: Seq<u8>, at: int) -> int
    decreases bytes.len() - at,
{
    if at >= bytes.len() {
        bytes.len() as int
    } else if bytes[at] == NEWLINE {
        at + 1
    } else {
        line_end(bytes, at + 1)
    }
}

/// A line begins at or before the offset it is asked for, and later offsets
/// have later line starts.
pub proof fn lemma_line_start_monotone(bytes: Seq<u8>, a: int, b: int)
    requires
        0 <= a <= b,
    ensures
        0 <= line_start(bytes, a) <= a,
        line_start(bytes, a) <= line_start(bytes, b) <= b,
    decreases b,
{
    if a > 0 {
        lemma_line_start_monotone(bytes, a - 1, a - 1);
    }
    if b > 0 {
        if a < b {
            lemma_line_start_monotone(bytes, a, b - 1);
        }
    }
}

/// Finds where the line that holds byte offset `at` begins.
pub fn find_line_start(s: &str, at: usize) -> (start: usize)
    requires
        at <= byte_len(s@),
    ensures
        start as int == line_start(encode_utf8(s@), at as int),
        start <= at,
        on_boundary(s@, start as int),
{
    let bytes = s.as_bytes();
    let mut i: usize = at;
    while i > 0 && bytes[i - 1] != NEWLINE
        invariant
            i <= at <= bytes@.len(),
            bytes@ == encode_utf8(s@),
            line_start(bytes@, at as int) == line_start(bytes@, i as int),
        decreases i,
    {
        i -= 1;
    }
    proof {
        if i > 0 {
            lemma_ascii_byte_boundaries(s@, i - 1);
        } else {
            lemma_ends_on_boundary(s@);
        }
    }
    i
}

/// Finds where the line that holds byte offset `at` ends.
pub fn find_line_end(s: &str, at: usize) -> (end: usize)
    requires
        at <= byte_len(s@),
    ensures
        end as int == line_end(encode_utf8(s@), at as int),
        at <= end <= byte_len(s@),
        on_boundary(s@, end as int),
{
    let bytes = s.as_bytes();
    let n = bytes.len();
    let mut i: usize = at;
    while i < n && bytes[i] != NEWLINE
        invariant
            at <= i <= n,
            n == bytes@.len(),
            bytes@ == encode_utf8(s@),
            line_end(bytes@, at as int) == line_end(bytes@, i as int),
        decreases n - i,
    {
        i += 1;
    }
    if i < n {
        proof {
            lemma_ascii_byte_boundaries(s@, i as int);
        }
        i + 1
    } else {
        proof {
            lemma_ends_on_boundary(s@);
        }
        n
    }
}

/// The offset of the first line break at or after `at`, or the end of the text.
pub open spec fn next_break(bytes: Seq<u8>, at: int) -> int
    decreases bytes.len() - at,
{
    if at >= bytes.len() {
        bytes.len() as int
    } else if bytes[at] == NEWLINE {
        at
    } else {
        next_break(bytes, at + 1)
    }
}

/// Finds the first line break at or after `at`.
pub fn find_break(s: &str, at: usize) -> (end: usize)
    requires
        at <= byte_len(s@),
    ensures
        end as int == next_break(encode_utf8(s@), at as int),
        at <= end <= byte_len(s@),
        on_boundary(s@, end as int),
        end < byte_len(s@) ==> on_boundary(s@, end + 1),
{
    let bytes = s.as_bytes();
    let n = bytes.len();
    let mut i: usize = at;
    while i < n && bytes[i] != NEWLINE
        invariant
            at <= i <= n,
            n == bytes@.len(),
            bytes@ == encode_utf8(s@),
            next_break(bytes@, at as int) == next_break(bytes@, i as int),
        decreases n - i,
    {
        i += 1;
    }
    proof {
        if i < n {
            lemma_ascii_byte_boundaries(s@, i as int);
        } else {
            lemma_ends_on_boundary(s@);
        }
    }
    i
}

/// Whether a character beyond ASCII has the Unicode property White_Space,
/// as `char::is_whitespace` reports it.
pub uninterp spec fn wide_white_space(c: char) -> bool;

/// Whether a character has the Unicode property White_Space. Within ASCII
/// these are the space and the characters from tab to carriage return.
pub open spec fn white_space(c: char) -> bool {
    if c as u32 <= 0x7f {
        c as u32 == 0x20 || 0x09 <= c as u32 <= 0x0d
    } else {
        wide_white_space(c)
    }
}

/// Whether a character is a control code (general category Cc): the
/// characters up to U+001F and those from U+007F to U+009F. Unicode
/// promises never to change this set.
pub open spec fn control_code(c: char) -> bool {
    c as u32 <= 0x1f || 0x7f <= c as u32 <= 0x9f
}

/// The text that `String::from_utf8_lossy` makes of bytes.
pub uninterp spec fn lossy_text(bytes: Seq<u8>) -> Seq<char>;

/// The lowercase form of a text, as `str::to_lowercase` produces it.
pub uninterp spec fn lowercase(text: Seq<char>) -> Seq<char>;

/// `char::is_whitespace`: spelled out within ASCII, named beyond it.
pub assume_specification[ char::is_whitespace ](c: char) -> (b: bool)
    ensures
        b == white_space(c),
        c as u32 > 0x7f ==> b == wide_white_space(c),
;

/// `char::is_control`: the control codes.
pub assume_specification[ char::is_control ](c: char) -> (b: bool)
    ensures
        b == control_code(c),
;

/// `String::from_utf8_lossy`. Believed, as its documentation says: bytes
/// that are valid UTF-8 give the text they encode. What invalid bytes give
/// is named, not spelled out.
#[verifier::external_body]
pub(crate) fn decode_lossy(bytes: &[u8]) -> (text: String)
    ensures
        text@ == lossy_text(bytes@),
        valid_utf8(bytes@) ==> text@ == decode_utf8(bytes@),
{
    String::from_utf8_lossy(bytes).into_owned()
}

/// `str::to_lowercase`: the result is named, not spelled out.
pub assume_specification[ str::to_lowercase ](s: &str) -> (lower: String)
    ensures
        lower@ == lowercase(s@),
;

/// Number of whitespace characters at the front of `text`.
pub open spec fn leading_whitespace(text: Seq<char>) -> int
    decreases text.len(),
{
    if text.len() > 0 && white_space(text[0]) {
        1 + leading_whitespace(text.drop_first())
    } else {
        0
    }
}

/// Number of whitespace characters at the back of `text`.
pub open spec fn trailing_whitespace(text: Seq<char>) -> int
    decreases text.len(),
{
    if text.len() > 0 && white_space(text.last()) {
        1 + trailing_whitespace(text.drop_last())
    } else {
        0
    }
}

/// `text` without the whitespace at its front and at its back.
pub open spec fn trimmed(text: Seq<char>) -> Seq<char> {
    let rest = text.skip(leading_whitespace(text));
    rest.take(rest.len() - trailing_whitespace(rest))
}

/// `str::trim`: per its documentation the result is the text without its
/// leading and trailing White_Space characters.
pub assume_specification<'a>[ str::trim ](s: &'a str) -> (inner: &'a str)
    ensures
        inner@ == trimmed(s@),
;

/// Whether `needle` occurs in `hay` as a run of consecutive characters.
pub open spec fn is_substring(needle: Seq<char>, hay: Seq<char>) -> bool {
    exists|i: int|
        0 <= i && i + needle.len() <= hay.len() && #[trigger] hay.subrange(i, i + needle.len())
            == needle
}

/// `str::contains` with a string pattern: per its documentation, whether the
/// pattern matches a sub-slice of the text.
#[verifier::external_body]
pub(crate) fn contains(hay: &str, needle: &str) -> (found: bool)
    ensures
        found == is_substring(needle@, hay@),
{
    hay.contains(needle)
}

/// `String::push`: per its documentation the character is added at the end.
pub assume_specification[ String::push ](s: &mut String, ch: char)
    ensures
        final(s)@ == old(s)@.push(ch),
;

/// `String::pop`: per its documentation the last character is removed and
/// returned, and an empty string gives `None`.
pub assume_specification[ String::pop ](s: &mut String) -> (last: Option<char>)
    ensures
        old(s)@.len() == 0 ==> last is None && final(s)@ == old(s)@,
        old(s)@.len() > 0 ==> last == Some(old(s)@.last()) && final(s)@ == old(s)@.drop_last(),
;

/// Whether two texts are the same.
pub fn same_text(a: &str, b: &str) -> (same: bool)
    ensures
        same == (a@ == b@),
{
    let x = a.as_bytes();
    let y = b.as_bytes();
    proof {
        encode_utf8_decode_utf8(a@);
        encode_utf8_decode_utf8(b@);
    }
    if x.len() != y.len() {
        return false;
    }
    let mut i: usize = 0;
    while i < x.len()
        invariant
            i <= x@.len(),
            x@.len() == y@.len(),
            x@ == encode_utf8(a@),
            y@ == encode_utf8(b@),
            forall|k: int| 0 <= k < i ==> x@[k] == y@[k],
        decreases x@.len() - i,
    {
        if x[i] != y[i] {
            return false;
        }
        i += 1;
    }
    assert(x@ =~= y@);
    true
}

/// Length of `s` in bytes.
pub fn len_bytes(s: &str) -> (n: usize)
    ensures
        n as int == byte_len(s@),
{
    s.as_bytes().len()
}

/// The part of `s` that occupies the bytes `from..to`.
pub fn slice<'a>(s: &'a str, from: usize, to: usize) -> (part: &'a str)
    requires
        span_ok(s@, from as int, to as int),
    ensures
        part@ == byte_slice(s@, from as int, to as int),
{
    let ghost bytes = s.spec_bytes();
    proof {
        encode_utf8_valid_utf8(s@);
        lemma_boundary_in_suffix(bytes, from as int, to as int);
    }
    let (_, tail) = s.split_at(from);
    let (part, _) = tail.split_at(to - from);
    proof {
        assert(part.spec_bytes() =~= bytes.subrange(from as int, to as int));
        encode_utf8_decode_utf8(part@);
    }
    part
}

} // verus!
