//! Choosing the log file to follow among the files of a directory.
//!
//! A live log is a file `*.log` that is not a rotated copy `*.N.log`. Of
//! several live logs the one whose name comes last is followed.

use vstd::prelude::*;
use vstd::utf8::*;
use crate::text::{byte_len, byte_slice, lemma_ascii_byte_boundaries, slice};

verus! {

/// The byte `.`.
pub const DOT: u8 = 46;

/// The bytes of `.log`.
pub open spec fn log_suffix() -> Seq<u8> {
    seq![46u8, 108u8, 111u8, 103u8]
}

/// Whether `bytes` end with `.log`.
pub open spec fn has_log_suffix(bytes: Seq<u8>) -> bool {
    bytes.len() >= 4 && bytes.subrange(bytes.len() - 4, bytes.len() as int) == log_suffix()
}

/// The offset of the last `.` before `end`, or -1.
pub open spec fn last_dot(bytes: Seq<u8>, end: int) -> int
    decreases end,
{
    if end <= 0 {
        -1
    } else if bytes[end - 1] == DOT {
        end - 1
    } else {
        last_dot(bytes, end - 1)
    }
}

/// Whether every character is a decimal digit.
pub open spec fn all_digits(text: Seq<char>) -> bool {
    forall|i: int| 0 <= i < text.len() ==> '0' <= #[trigger] text[i] <= '9'
}

/// The number that decimal digits denote.
pub open spec fn digits_value(text: Seq<char>) -> nat
    decreases text.len(),
{
    if text.len() == 0 {
        0
    } else {
        (digits_value(text.drop_last()) * 10 + (text.last() as u32 - '0' as u32)) as nat
    }
}

/// Whether `text` is a number that fits 32 bits: decimal digits, at least
/// one, with or without a `+` before them.
pub open spec fn denotes_u32(text: Seq<char>) -> bool {
    let digits = if text.len() > 0 && text[0] == '+' {
        text.skip(1)
    } else {
        text
    };
    digits.len() > 0 && all_digits(digits) && digits_value(digits) <= u32::MAX
}

/// `str::parse::<u32>`, asked only whether it succeeds. Believed, as the
/// documentation of the conversion says: it succeeds for decimal digits with
/// an optional `+` before them whose value fits, and for nothing else.
#[verifier::external_body]
fn is_u32(s: &str) -> (ok: bool)
    ensures
        ok == denotes_u32(s@),
{
    s.parse::<u32>().is_ok()
}

/// Whether a file of this name is a live log: it ends with `.log`, and what
/// stands between the last `.` before that and `.log` is not a number.
pub open spec fn is_live_name(name: Seq<char>) -> bool {
    let bytes = encode_utf8(name);
    let base = bytes.len() - 4;
    has_log_suffix(bytes) && (last_dot(bytes, base) < 0 || !denotes_u32(
        byte_slice(name, last_dot(bytes, base) + 1, base),
    ))
}

/// `a` comes before `b` when their bytes are compared one by one.
pub open spec fn lex_less(a: Seq<u8>, b: Seq<u8>) -> bool
    decreases a.len(),
{
    if b.len() == 0 {
        false
    } else if a.len() == 0 {
        true
    } else if a[0] != b[0] {
        a[0] < b[0]
    } else {
        lex_less(a.drop_first(), b.drop_first())
    }
}

/// Of two byte sequences one comes before the other or they are the same,
/// and never more than one of the three.
pub proof fn lemma_lex_total(a: Seq<u8>, b: Seq<u8>)
    ensures
        lex_less(a, b) || lex_less(b, a) || a == b,
        !(lex_less(a, b) && lex_less(b, a)),
        !lex_less(a, a),
    decreases a.len(),
{
    if a.len() > 0 && b.len() > 0 && a[0] == b[0] {
        lemma_lex_total(a.drop_first(), b.drop_first());
        if a.drop_first() == b.drop_first() {
            assert(a =~= seq![a[0]] + a.drop_first());
            assert(b =~= seq![b[0]] + b.drop_first());
        }
    } else if a.len() == 0 && b.len() == 0 {
        assert(a =~= b);
    }
    if a.len() > 0 {
        lemma_lex_irreflexive(a.drop_first());
    }
}

/// Nothing comes before itself.
pub proof fn lemma_lex_irreflexive(a: Seq<u8>)
    ensures
        !lex_less(a, a),
    decreases a.len(),
{
    if a.len() > 0 {
        lemma_lex_irreflexive(a.drop_first());
    }
}

/// What comes before something that comes before a third comes before the third.
pub proof fn lemma_lex_transitive(a: Seq<u8>, b: Seq<u8>, c: Seq<u8>)
    requires
        lex_less(a, b),
        lex_less(b, c),
    ensures
        lex_less(a, c),
    decreases a.len(),
{
    if a.len() > 0 && b.len() > 0 && c.len() > 0 && a[0] == b[0] && b[0] == c[0] {
        lemma_lex_transitive(a.drop_first(), b.drop_first(), c.drop_first());
    }
}

/// Whether the name `a` comes before the name `b`.
pub fn precedes(a: &str, b: &str) -> (before: bool)
    ensures
        before == lex_less(encode_utf8(a@), encode_utf8(b@)),
{
    let x = a.as_bytes();
    let y = b.as_bytes();
    let mut i: usize = 0;
    assert(x@.skip(0) =~= x@ && y@.skip(0) =~= y@);
    while i < x.len() && i < y.len()
        invariant
            i <= x@.len(),
            i <= y@.len(),
            x@ == encode_utf8(a@),
            y@ == encode_utf8(b@),
            lex_less(x@, y@) == lex_less(x@.skip(i as int), y@.skip(i as int)),
        decreases x@.len() - i,
    {
        assert(x@.skip(i as int)[0] == x@[i as int]);
        assert(y@.skip(i as int)[0] == y@[i as int]);
        if x[i] != y[i] {
            return x[i] < y[i];
        }
        assert(x@.skip(i as int).drop_first() =~= x@.skip(i + 1));
        assert(y@.skip(i as int).drop_first() =~= y@.skip(i + 1));
        i += 1;
    }
    i < y.len()
}

/// Whether a file of this name is a live log.
pub fn is_live_log_name(name: &str) -> (live: bool)
    ensures
        live == is_live_name(name@),
{
    let bytes = name.as_bytes();
    let n = bytes.len();
    if n < 4 {
        return false;
    }
    let base = n - 4;
    if !(bytes[base] == 46 && bytes[base + 1] == 108 && bytes[base + 2] == 111 && bytes[base + 3]
        == 103) {
        assert(bytes@.subrange(n - 4, n as int)[0] == bytes@[base as int]);
        assert(bytes@.subrange(n - 4, n as int)[1] == bytes@[base + 1]);
        assert(bytes@.subrange(n - 4, n as int)[2] == bytes@[base + 2]);
        assert(bytes@.subrange(n - 4, n as int)[3] == bytes@[base + 3]);
        return false;
    }
    assert(bytes@.subrange(n - 4, n as int) =~= log_suffix());
    let mut end: usize = base;
    while end > 0 && bytes[end - 1] != DOT
        invariant
            end <= base,
            base + 4 == bytes@.len(),
            bytes@ == encode_utf8(name@),
            last_dot(bytes@, base as int) == last_dot(bytes@, end as int),
        decreases end,
    {
        end -= 1;
    }
    if end == 0 {
        return true;
    }
    proof {
        lemma_ascii_byte_boundaries(name@, end - 1);
        lemma_ascii_byte_boundaries(name@, base as int);
    }
    !is_u32(slice(name, end, base))
}

/// The live log whose name comes last, as an index into `names`; the first
/// of them where names repeat. `None` if no name is that of a live log.
pub fn find_latest_live_log(names: &Vec<String>) -> (latest: Option<usize>)
    ensures
        match latest {
            Some(best) => best < names@.len() && is_live_name(names@[best as int]@) && (forall|
                j: int,
            |
                0 <= j < names@.len() && is_live_name(#[trigger] names@[j]@) ==> !lex_less(
                    encode_utf8(names@[best as int]@),
                    encode_utf8(names@[j]@),
                )) && (forall|j: int|
                0 <= j < best && is_live_name(#[trigger] names@[j]@) ==> lex_less(
                    encode_utf8(names@[j]@),
                    encode_utf8(names@[best as int]@),
                )),
            None => forall|j: int| 0 <= j < names@.len() ==> !is_live_name(#[trigger] names@[j]@),
        },
{
    let mut latest: Option<usize> = None;
    let mut i: usize = 0;
    while i < names.len()
        invariant
            i <= names@.len(),
            match latest {
                Some(best) => best < i && is_live_name(names@[best as int]@) && (forall|j: int|
                    0 <= j < i && is_live_name(#[trigger] names@[j]@) ==> !lex_less(
                        encode_utf8(names@[best as int]@),
                        encode_utf8(names@[j]@),
                    )) && (forall|j: int|
                    0 <= j < best && is_live_name(#[trigger] names@[j]@) ==> lex_less(
                        encode_utf8(names@[j]@),
                        encode_utf8(names@[best as int]@),
                    )),
                None => forall|j: int| 0 <= j < i ==> !is_live_name(#[trigger] names@[j]@),
            },
        decreases names@.len() - i,
    {
        if is_live_log_name(names[i].as_str()) {
            let later = match latest {
                Some(best) => precedes(names[best].as_str(), names[i].as_str()),
                None => true,
            };
            if later {
                proof {
                    let new = encode_utf8(names@[i as int]@);
                    lemma_lex_total(new, new);
                    if latest is Some {
                        let old = encode_utf8(names@[latest->0 as int]@);
                        assert forall|j: int|
                            0 <= j < i && is_live_name(#[trigger] names@[j]@) implies lex_less(
                            encode_utf8(names@[j]@),
                            new,
                        ) by {
                            let other = encode_utf8(names@[j]@);
                            lemma_lex_total(old, other);
                            if lex_less(other, old) {
                                lemma_lex_transitive(other, old, new);
                            }
                        }
                        assert forall|j: int|
                            0 <= j < i && is_live_name(#[trigger] names@[j]@) implies !lex_less(
                            new,
                            encode_utf8(names@[j]@),
                        ) by {
                            lemma_lex_total(new, encode_utf8(names@[j]@));
                        }
                    }
                }
                latest = Some(i);
            }
        }
        i += 1;
    }
    latest
}

} // verus!
