//! Text as a sequence of characters, and its UTF-8 encoding.
//!
//! Contracts in this crate speak of text as `Seq<char>`. The executable code
//! scans the UTF-8 bytes of a `&str` instead of decoding it, and the lemmas
//! here show that, for ASCII delimiters, both views cut a text at the same
//! place.

use vstd::prelude::*;
use vstd::string::StringSliceAdditionalSpecFns;
use vstd::utf8::*;

verus! {

/// The error of `core::str::from_utf8`, carried through without being read.
#[verifier::external_type_specification]
#[verifier::external_body]
pub struct ExUtf8Error(core::str::Utf8Error);

/// `core::str::from_utf8` succeeds exactly on well-formed UTF-8, and the text
/// it returns is made of the very bytes it was given.
pub assume_specification[ core::str::from_utf8 ](v: &[u8]) -> (r: Result<
    &str,
    core::str::Utf8Error,
>)
    ensures
        r is Ok <==> valid_utf8(v@),
        r matches Ok(s) ==> s.spec_bytes() == v@,
;

/// The index of the first character of `s` that occurs in `delims`, or the
/// length of `s` when none does.
pub open spec fn first_of(s: Seq<char>, delims: Seq<char>) -> int
    decreases s.len(),
{
    if s.len() == 0 || delims.contains(s[0]) {
        0
    } else {
        1 + first_of(s.drop_first(), delims)
    }
}

/// `s` cut at its first delimiter: what stands before it and what stands
/// after it, the delimiter itself dropped. `None` when `s` has no delimiter.
pub open spec fn cut(s: Seq<char>, delims: Seq<char>) -> Option<(Seq<char>, Seq<char>)> {
    let i = first_of(s, delims);
    if i < s.len() {
        Some((s.subrange(0, i), s.subrange(i + 1, s.len() as int)))
    } else {
        None
    }
}

/// `first_of` is a position in `s` or its length, no delimiter stands before
/// it, and a delimiter stands at it unless it is the length.
pub proof fn lemma_first_of(s: Seq<char>, delims: Seq<char>)
    ensures
        0 <= first_of(s, delims) <= s.len(),
        forall|j: int| 0 <= j < first_of(s, delims) ==> !delims.contains(#[trigger] s[j]),
        first_of(s, delims) < s.len() ==> delims.contains(s[first_of(s, delims)]),
    decreases s.len(),
{
    if s.len() == 0 || delims.contains(s[0]) {
    } else {
        let rest = s.drop_first();
        lemma_first_of(rest, delims);
        assert forall|j: int| 0 <= j < first_of(s, delims) implies !delims.contains(
            #[trigger] s[j],
        ) by {
            if j > 0 {
                assert(s[j] == rest[j - 1]);
            }
        }
        if first_of(s, delims) < s.len() {
            assert(s[first_of(s, delims)] == rest[first_of(rest, delims)]);
        }
    }
}

/// The position that `lemma_first_of` describes is the only one.
pub proof fn lemma_first_of_is(s: Seq<char>, delims: Seq<char>, i: int)
    requires
        0 <= i <= s.len(),
        forall|j: int| 0 <= j < i ==> !delims.contains(#[trigger] s[j]),
        i < s.len() ==> delims.contains(s[i]),
    ensures
        first_of(s, delims) == i,
{
    lemma_first_of(s, delims);
    let k = first_of(s, delims);
    if k < i {
        assert(!delims.contains(s[k]));
    } else if i < k {
        assert(delims.contains(s[i]));
    }
}

/// Whether no character of `s` is a delimiter.
pub open spec fn free_of(s: Seq<char>, delims: Seq<char>) -> bool {
    forall|i: int| 0 <= i < s.len() ==> !delims.contains(#[trigger] s[i])
}

/// How many characters of `s` are delimiters.
pub open spec fn count_of(s: Seq<char>, delims: Seq<char>) -> nat
    decreases s.len(),
{
    if s.len() == 0 {
        0
    } else if delims.contains(s[0]) {
        1 + count_of(s.drop_first(), delims)
    } else {
        count_of(s.drop_first(), delims)
    }
}

/// A text that is free of delimiters, then a delimiter, then any text, is
/// cut into the first text and the last.
pub proof fn lemma_cut_joined(head: Seq<char>, delim: char, tail: Seq<char>, delims: Seq<char>)
    requires
        free_of(head, delims),
        delims.contains(delim),
    ensures
        cut(head + seq![delim] + tail, delims) == Some((head, tail)),
{
    let s = head + seq![delim] + tail;
    let n = head.len() as int;
    assert forall|j: int| 0 <= j < n implies !delims.contains(#[trigger] s[j]) by {
        assert(s[j] == head[j]);
    }
    assert(s[n] == delim);
    lemma_first_of_is(s, delims, n);
    assert(s.subrange(0, n) =~= head);
    assert(s.subrange(n + 1, s.len() as int) =~= tail);
}

/// A text can be cut exactly when it holds a delimiter, and the cut takes
/// one delimiter away: the head has none, the tail has the others.
pub proof fn lemma_cut_count(s: Seq<char>, delims: Seq<char>)
    ensures
        match cut(s, delims) {
            Some((head, tail)) => free_of(head, delims) && count_of(s, delims) == 1 + count_of(
                tail,
                delims,
            ),
            None => count_of(s, delims) == 0 && free_of(s, delims),
        },
    decreases s.len(),
{
    lemma_first_of(s, delims);
    if s.len() == 0 {
    } else if delims.contains(s[0]) {
        assert(s.subrange(1, s.len() as int) =~= s.drop_first());
    } else {
        let rest = s.drop_first();
        lemma_cut_count(rest, delims);
        lemma_first_of(rest, delims);
        let i = first_of(rest, delims);
        if i < rest.len() {
            assert(s.subrange(i + 2, s.len() as int) =~= rest.subrange(i + 1, rest.len() as int));
        }
    }
}

/// An ASCII character is encoded as the one byte of its code, and every byte
/// that encodes any other character is `0x80` or above.
pub proof fn lemma_scalar_bytes(c: char)
    ensures
        encode_scalar(c as u32).len() >= 1,
        (c as u32) < 0x80 ==> encode_scalar(c as u32) == seq![c as u8],
        (c as u32) >= 0x80 ==> forall|j: int|
            0 <= j < encode_scalar(c as u32).len() ==> #[trigger] encode_scalar(c as u32)[j]
                >= 0x80,
{
    let v = c as u32;
    char_is_scalar(c);
    if v < 0x80 {
        assert((v & 0x7F) as u8 == v as u8) by (bit_vector)
            requires
                v < 0x80,
        ;
        assert(encode_scalar(v) =~= seq![c as u8]);
    } else {
        assert(0xC0u8 | ((v >> 6) & 0x1F) as u8 >= 0x80) by (bit_vector);
        assert(0xE0u8 | ((v >> 12) & 0x0F) as u8 >= 0x80) by (bit_vector);
        assert(0xF0u8 | ((v >> 18) & 0x7) as u8 >= 0x80) by (bit_vector);
        assert(0x80u8 | (v & 0x3F) as u8 >= 0x80) by (bit_vector);
        assert(0x80u8 | ((v >> 6) & 0x3F) as u8 >= 0x80) by (bit_vector);
        assert(0x80u8 | ((v >> 12) & 0x3F) as u8 >= 0x80) by (bit_vector);
    }
}

/// Two ASCII characters with the same code are the same character.
proof fn lemma_ascii_code(a: char, b: char)
    requires
        (a as u32) < 0x80,
        (b as u32) < 0x80,
        a as u8 == b as u8,
    ensures
        a == b,
{
}

/// Scanning the bytes of a text for the bytes of ASCII delimiters finds the
/// first delimiter of the text: where `i` is the first such byte (or the end
/// of the bytes), the bytes before `i` encode the characters before the first
/// delimiter, and the bytes after `i` encode the characters after it.
pub proof fn lemma_scan(s: Seq<char>, delims: Seq<char>, i: int)
    requires
        is_ascii_chars(delims),
        0 <= i <= encode_utf8(s).len(),
        forall|j: int| 0 <= j < i ==> !encode_utf8(delims).contains(#[trigger] encode_utf8(s)[j]),
        i < encode_utf8(s).len() ==> encode_utf8(delims).contains(encode_utf8(s)[i]),
    ensures
        0 <= first_of(s, delims) <= s.len(),
        i == encode_utf8(s).len() <==> first_of(s, delims) == s.len(),
        encode_utf8(s).subrange(0, i) == encode_utf8(s.subrange(0, first_of(s, delims))),
        i < encode_utf8(s).len() ==> encode_utf8(s).subrange(i + 1, encode_utf8(s).len() as int)
            == encode_utf8(s.subrange(first_of(s, delims) + 1, s.len() as int)),
        i < encode_utf8(s).len() ==> encode_utf8(s)[i] < 0x80,
    decreases s.len(),
{
    let bytes = encode_utf8(s);
    let marks = encode_utf8(delims);
    is_ascii_chars_encode_utf8(delims);
    if s.len() == 0 {
        assert(s.subrange(0, 0) =~= s);
        assert(bytes.subrange(0, 0) =~= bytes);
    } else {
        let c = s[0];
        let rest = s.drop_first();
        let head = encode_scalar(c as u32);
        let tail = encode_utf8(rest);
        lemma_scalar_bytes(c);
        assert(bytes == head + tail);
        if delims.contains(c) {
            let k = choose|k: int| 0 <= k < delims.len() && delims[k] == c;
            assert(marks[k] == c as u8);
            assert(bytes[0] == c as u8);
            assert(i == 0);
            assert(bytes.subrange(0, 0) =~= encode_utf8(s.subrange(0, 0)));
            assert(s.subrange(1, s.len() as int) =~= rest);
            assert(bytes.subrange(1, bytes.len() as int) =~= tail);
        } else {
            assert forall|j: int| 0 <= j < head.len() implies !marks.contains(
                #[trigger] bytes[j],
            ) by {
                assert(bytes[j] == head[j]);
                if marks.contains(bytes[j]) {
                    let k = choose|k: int| 0 <= k < marks.len() && marks[k] == bytes[j];
                    assert(marks[k] == delims[k] as u8);
                    assert((c as u32) < 0x80);
                    assert(head[j] == c as u8);
                    lemma_ascii_code(delims[k], c);
                }
            }
            let n = head.len() as int;
            assert forall|j: int| 0 <= j < i - n implies !marks.contains(#[trigger] tail[j]) by {
                assert(tail[j] == bytes[j + n]);
            }
            if i < bytes.len() {
                assert(tail[i - n] == bytes[i]);
            }
            lemma_scan(rest, delims, i - n);
            let k = first_of(rest, delims);
            let before = s.subrange(0, k + 1);
            assert(before[0] == c);
            assert(before.drop_first() =~= rest.subrange(0, k));
            assert(bytes.subrange(0, i) =~= head + tail.subrange(0, i - n));
            if i < bytes.len() {
                assert(s.subrange(k + 2, s.len() as int) =~= rest.subrange(
                    k + 1,
                    rest.len() as int,
                ));
                assert(bytes.subrange(i + 1, bytes.len() as int) =~= tail.subrange(
                    i - n + 1,
                    tail.len() as int,
                ));
            }
        }
    }
}

/// Whether `b` is one of `marks`.
fn contains_byte(marks: &[u8], b: u8) -> (r: bool)
    ensures
        r == marks@.contains(b),
{
    let mut k: usize = 0;
    while k < marks.len()
        invariant
            k <= marks.len(),
            forall|j: int| 0 <= j < k ==> marks@[j] != b,
        decreases marks.len() - k,
    {
        if marks[k] == b {
            return true;
        }
        k += 1;
    }
    false
}

/// Cuts `s` at its first delimiter, borrowing both parts from `s`. The
/// delimiters are the characters of `delims`, which must be ASCII.
pub(crate) fn split_first<'a>(s: &'a str, delims: &str) -> (r: Option<(&'a str, &'a str)>)
    requires
        is_ascii_chars(delims@),
    ensures
        match r {
            Some((head, tail)) => cut(s@, delims@) == Some((head@, tail@)),
            None => cut(s@, delims@) is None,
        },
{
    let bytes = s.as_bytes();
    let marks = delims.as_bytes();
    let mut i: usize = 0;
    while i < bytes.len()
        invariant
            i <= bytes.len(),
            bytes@ == encode_utf8(s@),
            marks@ == encode_utf8(delims@),
            is_ascii_chars(delims@),
            forall|j: int| 0 <= j < i ==> !marks@.contains(#[trigger] bytes@[j]),
        decreases bytes.len() - i,
    {
        if contains_byte(marks, bytes[i]) {
            proof {
                lemma_scan(s@, delims@, i as int);
                encode_utf8_valid_utf8(s@);
                is_char_boundary_iff_not_is_continuation_byte(bytes@, i as int);
            }
            let (head, rest) = s.split_at(i);
            proof {
                encode_utf8_valid_utf8(rest@);
                reveal_with_fuel(is_char_boundary, 2);
                assert(is_char_boundary(rest.spec_bytes(), 1));
            }
            let (_, tail) = rest.split_at(1);
            proof {
                assert(tail.spec_bytes() =~= bytes@.subrange(i + 1, bytes@.len() as int));
                encode_utf8_decode_utf8(head@);
                encode_utf8_decode_utf8(tail@);
                encode_utf8_decode_utf8(s@.subrange(0, first_of(s@, delims@)));
                encode_utf8_decode_utf8(
                    s@.subrange(first_of(s@, delims@) + 1, s@.len() as int),
                );
            }
            return Some((head, tail));
        }
        i += 1;
    }
    proof {
        lemma_scan(s@, delims@, i as int);
    }
    None
}

/// Whether two texts hold the same characters.
pub fn text_eq(a: &str, b: &str) -> (r: bool)
    ensures
        r == (a@ == b@),
{
    let x = a.as_bytes();
    let y = b.as_bytes();
    proof {
        encode_utf8_decode_utf8(a@);
        encode_utf8_decode_utf8(b@);
    }
    if x.len() != y.len() {
        return false;
    }
    let mut i: usize = 0;
    while i < x.len()
        invariant
            i <= x.len(),
            x.len() == y.len(),
            x@ == encode_utf8(a@),
            y@ == encode_utf8(b@),
            forall|j: int| 0 <= j < i ==> x@[j] == y@[j],
        decreases x.len() - i,
    {
        if x[i] != y[i] {
            return false;
        }
        i += 1;
    }
    assert(x@ =~= y@);
    true
}

} // verus!
