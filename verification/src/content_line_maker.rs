//! Breaking a record's content into lines that fit a panel.

use vstd::prelude::*;
use vstd::string::*;
use vstd::utf8::*;
use crate::text::{
    byte_len, byte_slice, lemma_ascii_byte_boundaries, lemma_boundary_step, lemma_ends_on_boundary,
    on_boundary, slice, span_ok, NEWLINE,
};

verus! {

/// Number of bytes of the character whose encoding begins with `first`.
pub open spec fn char_width(first: u8) -> int {
    if first < 0x80 {
        1
    } else if first < 0xe0 {
        2
    } else if first < 0xf0 {
        3
    } else {
        4
    }
}

/// The lines of `text` from byte `at` on, where the line being filled began
/// at byte `from`. A line ends at a line break, which is dropped, or behind
/// the character with which it is exactly `width` bytes long. A character
/// that takes a line past `width` bytes without meeting it does not end it.
pub open spec fn wrapped_from(text: Seq<char>, width: int, from: int, at: int) -> Seq<Seq<char>>
    decreases byte_len(text) - at,
{
    let bytes = encode_utf8(text);
    if at >= bytes.len() {
        if from < at {
            seq![byte_slice(text, from, at)]
        } else {
            Seq::empty()
        }
    } else if bytes[at] == NEWLINE {
        seq![byte_slice(text, from, at)] + wrapped_from(text, width, at + 1, at + 1)
    } else {
        let behind = at + char_width(bytes[at]);
        let next = if behind <= bytes.len() {
            behind
        } else {
            bytes.len() as int
        };
        if next - from == width {
            seq![byte_slice(text, from, next)] + wrapped_from(text, width, next, next)
        } else {
            wrapped_from(text, width, from, next)
        }
    }
}

/// The lines that `text` is shown in at `width`; none at width 0.
pub open spec fn wrapped(text: Seq<char>, width: int) -> Seq<Seq<char>> {
    if width == 0 {
        Seq::empty()
    } else {
        wrapped_from(text, width, 0, 0)
    }
}

/// What the lines say.
pub open spec fn line_texts(lines: Seq<String>) -> Seq<Seq<char>> {
    Seq::new(lines.len(), |i: int| lines[i]@)
}

/// Breaks `content` into lines of `width` bytes. Line breaks of the content
/// end a line and are not shown; an empty line between two of them is kept.
pub fn wrap_content_to_lines(content: &str, width: u16) -> (lines: Vec<String>)
    ensures
        line_texts(lines@) == wrapped(content@, width as int),
        lines@.len() == wrapped(content@, width as int).len(),
{
    let mut lines: Vec<String> = Vec::new();
    if width == 0 {
        assert(line_texts(lines@) =~= Seq::<Seq<char>>::empty());
        return lines;
    }
    let bytes = content.as_bytes();
    let n = bytes.len();
    let mut from: usize = 0;
    let mut at: usize = 0;
    proof {
        lemma_ends_on_boundary(content@);
        assert(line_texts(lines@) + wrapped_from(content@, width as int, 0, 0) =~= wrapped(
            content@,
            width as int,
        ));
    }
    while at < n
        invariant
            width > 0,
            bytes@ == encode_utf8(content@),
            n == bytes@.len(),
            from <= at <= n,
            on_boundary(content@, from as int),
            on_boundary(content@, at as int),
            line_texts(lines@) + wrapped_from(content@, width as int, from as int, at as int)
                == wrapped(content@, width as int),
        decreases n - at,
    {
        let ghost before = line_texts(lines@);
        let first = bytes[at];
        if first == NEWLINE {
            proof {
                lemma_ascii_byte_boundaries(content@, at as int);
            }
            lines.push(slice(content, from, at).to_owned());
            at = at + 1;
            from = at;
        } else {
            proof {
                encode_utf8_valid_utf8(content@);
                lemma_boundary_step(bytes@, at as int);
                is_char_boundary_iff_is_leading_byte(bytes@, at as int);
                assert(bytes@.subrange(at as int, n as int)[0] == first);
            }
            let step: usize = if first < 0x80 {
                1
            } else if first < 0xe0 {
                2
            } else if first < 0xf0 {
                3
            } else {
                4
            };
            at = at + step;
            if at - from == width as usize {
                lines.push(slice(content, from, at).to_owned());
                from = at;
            }
        }
    }
    if from < at {
        lines.push(slice(content, from, at).to_owned());
    }
    lines
}

} // verus!
