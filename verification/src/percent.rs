//! Percent-encoding of literal path segments, and its inverse.
//!
//! The encoding works on the UTF-8 bytes of a segment: ASCII letters and
//! digits, `/`, `_` and `-` are written as they stand, every other byte as
//! `%` and two upper-case hexadecimal digits.

use percent_encoding::percent_decode_str;
use vstd::prelude::*;
use vstd::string::*;
use vstd::utf8::*;

verus! {

/// Whether a byte of a literal segment is written as it stands.
pub open spec fn is_path_safe(b: u8) -> bool {
    ||| 0x30 <= b <= 0x39
    ||| 0x41 <= b <= 0x5a
    ||| 0x61 <= b <= 0x7a
    ||| b == 0x2f
    ||| b == 0x5f
    ||| b == 0x2d
}

/// The upper-case hexadecimal digit for a value below sixteen.
pub open spec fn hex_upper(n: int) -> char {
    if n < 10 {
        (0x30 + n) as char
    } else {
        (0x37 + n) as char
    }
}

/// The three characters that stand for an escaped byte.
pub open spec fn escape(b: u8) -> Seq<char> {
    seq!['%', hex_upper(b as int / 16), hex_upper(b as int % 16)]
}

/// The characters that one byte is written as.
pub open spec fn encode_byte(b: u8) -> Seq<char> {
    if is_path_safe(b) {
        seq![b as char]
    } else {
        escape(b)
    }
}

/// The percent-encoding of a byte sequence.
pub open spec fn percent_encode(bytes: Seq<u8>) -> Seq<char>
    decreases bytes.len(),
{
    if bytes.len() == 0 {
        Seq::empty()
    } else {
        encode_byte(bytes[0]) + percent_encode(bytes.drop_first())
    }
}

/// The percent-encoding of a text: that of its UTF-8 bytes.
pub open spec fn percent_encode_text(text: Seq<char>) -> Seq<char> {
    percent_encode(encode_utf8(text))
}

/// The value of a hexadecimal digit, of either case.
pub open spec fn hex_value(b: u8) -> Option<int> {
    if 0x30 <= b <= 0x39 {
        Some(b - 0x30)
    } else if 0x41 <= b <= 0x46 {
        Some(b - 0x37)
    } else if 0x61 <= b <= 0x66 {
        Some(b - 0x57)
    } else {
        None
    }
}

/// Whether the bytes start with `%` and two hexadecimal digits.
pub open spec fn starts_with_escape(bytes: Seq<u8>) -> bool {
    &&& bytes.len() >= 3
    &&& bytes[0] == 0x25
    &&& hex_value(bytes[1]) is Some
    &&& hex_value(bytes[2]) is Some
}

/// The percent-decoding of a byte sequence: each `%` followed by two
/// hexadecimal digits becomes the byte they denote, every other byte stays.
pub open spec fn percent_decode(bytes: Seq<u8>) -> Seq<u8>
    decreases bytes.len(),
{
    if bytes.len() == 0 {
        Seq::empty()
    } else if starts_with_escape(bytes) {
        seq![(hex_value(bytes[1])->0 * 16 + hex_value(bytes[2])->0) as u8] + percent_decode(
            bytes.skip(3),
        )
    } else {
        seq![bytes[0]] + percent_decode(bytes.drop_first())
    }
}

/// What a lossy UTF-8 decoder makes of bytes that are not well-formed UTF-8.
pub uninterp spec fn lossy_utf8(bytes: Seq<u8>) -> Seq<char>;

/// The text that percent-decoding yields: the decoded bytes read as UTF-8,
/// lossily where they are not well-formed.
pub open spec fn percent_decode_text(text: Seq<char>) -> Seq<char> {
    let bytes = percent_decode(encode_utf8(text));
    if valid_utf8(bytes) {
        decode_utf8(bytes)
    } else {
        lossy_utf8(bytes)
    }
}

/// Specifies `percent_encoding::percent_encode_byte`: the result is `%`
/// followed by the byte's two hexadecimal digits in upper case.
pub assume_specification[ percent_encoding::percent_encode_byte ](byte: u8) -> (text: &'static str)
    ensures
        text@ == escape(byte),
;

/// Specifies `String::push`: the character is added at the end.
pub assume_specification[ std::string::String::push ](text: &mut std::string::String, c: char)
    ensures
        final(text)@ == old(text)@.push(c),
;

/// Encoding a sequence with one more byte adds that byte's characters.
pub proof fn lemma_percent_encode_push(bytes: Seq<u8>, b: u8)
    ensures
        percent_encode(bytes.push(b)) == percent_encode(bytes) + encode_byte(b),
    decreases bytes.len(),
{
    if bytes.len() == 0 {
        assert(bytes.push(b).drop_first() =~= Seq::<u8>::empty());
        assert(percent_encode(bytes.push(b)) =~= encode_byte(b) + percent_encode(
            Seq::<u8>::empty(),
        ));
    } else {
        assert(bytes.push(b).drop_first() =~= bytes.drop_first().push(b));
        lemma_percent_encode_push(bytes.drop_first(), b);
        assert(percent_encode(bytes.push(b)) =~= percent_encode(bytes) + encode_byte(b));
    }
}

/// Whether a byte is written as it stands.
pub fn path_safe(b: u8) -> (safe: bool)
    ensures
        safe == is_path_safe(b),
{
    (0x30 <= b && b <= 0x39) || (0x41 <= b && b <= 0x5a) || (0x61 <= b && b <= 0x7a) || b == 0x2f
        || b == 0x5f || b == 0x2d
}

/// Percent-encodes a literal segment.
pub fn encode_segment(segment: &str) -> (encoded: String)
    ensures
        encoded@ == percent_encode_text(segment@),
{
    let bytes = segment.as_bytes();
    let mut encoded = String::new();
    let mut i: usize = 0;
    while i < bytes.len()
        invariant
            i <= bytes@.len(),
            bytes@ == encode_utf8(segment@),
            encoded@ == percent_encode(bytes@.take(i as int)),
        decreases bytes@.len() - i,
    {
        let b = bytes[i];
        proof {
            lemma_percent_encode_push(bytes@.take(i as int), b);
            assert(bytes@.take(i as int).push(b) =~= bytes@.take(i + 1));
        }
        if path_safe(b) {
            encoded.push(b as char);
        } else {
            encoded.append(percent_encoding::percent_encode_byte(b));
        }
        i += 1;
    }
    proof {
        assert(bytes@.take(i as int) =~= bytes@);
    }
    encoded
}

/// Calls `percent_encoding::percent_decode_str` and its `decode_utf8_lossy`.
/// The contract restates the decoder byte by byte, and says that well-formed
/// UTF-8 is read as it is; of other bytes it only names the result.
#[verifier::external_body]
pub(crate) fn decode_lossy(text: &str) -> (decoded: String)
    ensures
        decoded@ == percent_decode_text(text@),
        !valid_utf8(percent_decode(encode_utf8(text@))) ==> decoded@ == lossy_utf8(
            percent_decode(encode_utf8(text@)),
        ),
{
    percent_decode_str(text).decode_utf8_lossy().into_owned()
}

/// The encoding holds ASCII characters only.
pub proof fn lemma_percent_encode_ascii(bytes: Seq<u8>)
    ensures
        is_ascii_chars(percent_encode(bytes)),
    decreases bytes.len(),
{
    if bytes.len() > 0 {
        lemma_percent_encode_ascii(bytes.drop_first());
        let head = encode_byte(bytes[0]);
        let tail = percent_encode(bytes.drop_first());
        assert forall|i: int| 0 <= i < (head + tail).len() implies '\0' <= #[trigger] (head
            + tail)[i] <= '\u{7f}' by {
            if i >= head.len() {
                assert((head + tail)[i] == tail[i - head.len()]);
            }
        }
    }
}

/// Decoding the encoding of a byte sequence gives the sequence back.
pub proof fn lemma_percent_decode_encode(bytes: Seq<u8>)
    ensures
        percent_decode(encode_utf8(percent_encode(bytes))) == bytes,
    decreases bytes.len(),
{
    if bytes.len() == 0 {
        assert(encode_utf8(percent_encode(bytes)) =~= Seq::<u8>::empty());
    } else {
        let b = bytes[0];
        let rest = bytes.drop_first();
        let head = encode_byte(b);
        let tail = percent_encode(rest);
        let whole = head + tail;
        let x = encode_utf8(whole);
        let y = encode_utf8(tail);
        lemma_percent_decode_encode(rest);
        lemma_percent_encode_ascii(bytes);
        lemma_percent_encode_ascii(rest);
        is_ascii_chars_encode_utf8(whole);
        is_ascii_chars_encode_utf8(tail);
        assert forall|i: int| 0 <= i < tail.len() implies x[i + head.len()] == y[i] by {
            assert(whole[i + head.len()] == tail[i]);
        }
        assert(x.skip(head.len() as int) =~= y);
        assert(whole[0] == head[0]);
        if is_path_safe(b) {
            assert(x[0] == b);
            assert(!starts_with_escape(x));
            assert(x.drop_first() =~= x.skip(1));
        } else {
            assert(whole[1] == head[1]);
            assert(whole[2] == head[2]);
            let hi = b as int / 16;
            let lo = b as int % 16;
            assert(hex_value(hex_upper(hi) as u8) == Some(hi));
            assert(hex_value(hex_upper(lo) as u8) == Some(lo));
            assert(starts_with_escape(x));
            assert((hi * 16 + lo) as u8 == b);
        }
        assert(percent_decode(x) =~= seq![b] + rest);
        assert(seq![b] + rest =~= bytes);
    }
}

/// A text that was percent-encoded decodes back to itself.
pub proof fn lemma_percent_round_trip(text: Seq<char>)
    ensures
        percent_decode_text(percent_encode_text(text)) == text,
{
    lemma_percent_decode_encode(encode_utf8(text));
    encode_utf8_valid_utf8(text);
    encode_utf8_decode_utf8(text);
}

/// The UTF-8 encoding of a concatenation is the concatenation of the
/// encodings.
pub proof fn lemma_encode_utf8_concat(a: Seq<char>, b: Seq<char>)
    ensures
        encode_utf8(a + b) == encode_utf8(a) + encode_utf8(b),
    decreases a.len(),
{
    if a.len() == 0 {
        assert(a + b =~= b);
        assert(encode_utf8(a) + encode_utf8(b) =~= encode_utf8(b));
    } else {
        lemma_encode_utf8_concat(a.drop_first(), b);
        assert((a + b).drop_first() =~= a.drop_first() + b);
        assert(encode_utf8(a + b) =~= encode_utf8(a) + encode_utf8(b));
    }
}

/// The percent-encoding of a concatenation is the concatenation of the
/// encodings.
pub proof fn lemma_percent_encode_concat(a: Seq<u8>, b: Seq<u8>)
    ensures
        percent_encode(a + b) == percent_encode(a) + percent_encode(b),
    decreases a.len(),
{
    if a.len() == 0 {
        assert(a + b =~= b);
        assert(percent_encode(a) + percent_encode(b) =~= percent_encode(b));
    } else {
        lemma_percent_encode_concat(a.drop_first(), b);
        assert((a + b).drop_first() =~= a.drop_first() + b);
        assert(percent_encode(a + b) =~= percent_encode(a) + percent_encode(b));
    }
}

/// The percent-encoding of a concatenation of texts is the concatenation of
/// their encodings.
pub proof fn lemma_percent_encode_text_concat(a: Seq<char>, b: Seq<char>)
    ensures
        percent_encode_text(a + b) == percent_encode_text(a) + percent_encode_text(b),
{
    lemma_encode_utf8_concat(a, b);
    lemma_percent_encode_concat(encode_utf8(a), encode_utf8(b));
}

/// A `/` is encoded as itself.
pub proof fn lemma_percent_encode_slash()
    ensures
        percent_encode_text(seq!['/']) == seq!['/'],
{
    let s = seq!['/'];
    assert(is_ascii_chars(s));
    is_ascii_chars_encode_utf8(s);
    let b = encode_utf8(s);
    assert(b.len() == 1);
    assert(b[0] == 0x2f);
    assert(b.drop_first() =~= Seq::<u8>::empty());
    assert(percent_encode(b.drop_first()) =~= Seq::<char>::empty());
    assert(percent_encode(b) =~= s);
}

} // verus!
