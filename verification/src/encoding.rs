//! Percent-encoding: how a piece of text stands in the path of a URL.
//!
//! The text's UTF-8 bytes are taken one by one. Letters, digits, `-`, `.`,
//! `_` and `~` stand for themselves; every other byte is written as `%` and
//! two upper-case hexadecimal digits.

use crate::text::ascii_text;
use vstd::prelude::*;
use vstd::utf8::encode_utf8;

verus! {

/// A byte that percent-encoding leaves as it is: an ASCII letter or digit,
/// `-`, `.`, `_` or `~`.
pub open spec fn is_unreserved(b: u8) -> bool {
    ||| (0x30 <= b && b <= 0x39)
    ||| (0x41 <= b && b <= 0x5a)
    ||| (0x61 <= b && b <= 0x7a)
    ||| b == 0x2d
    ||| b == 0x2e
    ||| b == 0x5f
    ||| b == 0x7e
}

/// A character that percent-encoding leaves as it is.
pub open spec fn is_unreserved_char(c: char) -> bool {
    ||| ('0' <= c && c <= '9')
    ||| ('A' <= c && c <= 'Z')
    ||| ('a' <= c && c <= 'z')
    ||| c == '-'
    ||| c == '.'
    ||| c == '_'
    ||| c == '~'
}

/// Text that percent-encoding leaves as it is.
pub open spec fn is_unreserved_text(s: Seq<char>) -> bool {
    forall|i: int| 0 <= i < s.len() ==> is_unreserved_char(#[trigger] s[i])
}

/// A character that percent-encoding can put out.
pub open spec fn is_encoded_char(c: char) -> bool {
    is_unreserved_char(c) || c == '%'
}

/// The upper-case hexadecimal digit for a value below sixteen.
pub open spec fn hex_digit(n: int) -> char {
    if n < 10 {
        ((0x30 + n) as u8) as char
    } else {
        ((0x41 + n - 10) as u8) as char
    }
}

/// The value of a hexadecimal digit that `hex_digit` writes.
pub open spec fn hex_value(c: char) -> int {
    if '0' <= c && c <= '9' {
        c as int - 0x30
    } else {
        c as int - 0x41 + 10
    }
}

/// One byte, percent-encoded.
pub open spec fn percent_encode_byte(b: u8) -> Seq<char> {
    if is_unreserved(b) {
        seq![b as char]
    } else {
        seq!['%', hex_digit(b as int / 16), hex_digit(b as int % 16)]
    }
}

/// Bytes, percent-encoded one by one.
pub open spec fn percent_encode(bytes: Seq<u8>) -> Seq<char>
    decreases bytes.len(),
{
    if bytes.len() == 0 {
        Seq::empty()
    } else {
        percent_encode(bytes.drop_last()) + percent_encode_byte(bytes.last())
    }
}

/// A piece of text as it stands in a URL: its UTF-8 bytes, percent-encoded.
pub open spec fn encoded(s: Seq<char>) -> Seq<char> {
    percent_encode(encode_utf8(s))
}

/// Percent-encoded text read back into bytes.
pub open spec fn percent_decode(text: Seq<char>) -> Seq<u8>
    decreases text.len(),
{
    if text.len() == 0 {
        Seq::empty()
    } else if text[0] == '%' && text.len() >= 3 {
        seq![(hex_value(text[1]) * 16 + hex_value(text[2])) as u8] + percent_decode(text.skip(3))
    } else {
        seq![text[0] as u8] + percent_decode(text.skip(1))
    }
}

/// Percent-encodes with `urlencoding::encode`, which goes through the UTF-8
/// bytes of its argument, keeps ASCII letters, digits, `-`, `.`, `_` and `~`,
/// and writes every other byte as `%` and two upper-case hexadecimal digits.
#[verifier::external_body]
pub(crate) fn encode_segment(s: &str) -> (out: String)
    ensures
        out@ == encoded(s@),
{
    urlencoding::encode(s).into_owned()
}

/// A percent-encoded byte is made of letters, digits, `-`, `.`, `_`, `~` and
/// `%` only.
pub proof fn lemma_percent_encode_byte_chars(b: u8)
    ensures
        1 <= percent_encode_byte(b).len() <= 3,
        forall|j: int|
            0 <= j < percent_encode_byte(b).len() ==> is_encoded_char(
                #[trigger] percent_encode_byte(b)[j],
            ),
{
    let hi = b as int / 16;
    let lo = b as int % 16;
    assert(0 <= hi < 16 && 0 <= lo < 16);
    assert(is_encoded_char(hex_digit(hi)));
    assert(is_encoded_char(hex_digit(lo)));
    if is_unreserved(b) {
        assert(is_encoded_char(b as char));
    }
}

/// Percent-encoded text is made of letters, digits, `-`, `.`, `_`, `~` and
/// `%` only; in particular it holds no separator, no `?` and no `#`.
pub proof fn lemma_percent_encode_chars(bytes: Seq<u8>)
    ensures
        forall|i: int|
            0 <= i < percent_encode(bytes).len() ==> is_encoded_char(
                #[trigger] percent_encode(bytes)[i],
            ),
    decreases bytes.len(),
{
    if bytes.len() > 0 {
        let front = percent_encode(bytes.drop_last());
        let back = percent_encode_byte(bytes.last());
        lemma_percent_encode_chars(bytes.drop_last());
        lemma_percent_encode_byte_chars(bytes.last());
        assert forall|i: int| 0 <= i < percent_encode(bytes).len() implies is_encoded_char(
            #[trigger] percent_encode(bytes)[i],
        ) by {
            if i < front.len() {
                assert(percent_encode(bytes)[i] == front[i]);
            } else {
                assert(percent_encode(bytes)[i] == back[i - front.len()]);
            }
        }
    }
}

/// Bytes that percent-encoding leaves as they are encode to the text they
/// spell.
pub proof fn lemma_percent_encode_unreserved(bytes: Seq<u8>)
    requires
        forall|i: int| 0 <= i < bytes.len() ==> is_unreserved(#[trigger] bytes[i]),
    ensures
        percent_encode(bytes) == ascii_text(bytes),
    decreases bytes.len(),
{
    if bytes.len() == 0 {
        assert(percent_encode(bytes) =~= ascii_text(bytes));
    } else {
        let front = bytes.drop_last();
        assert forall|i: int| 0 <= i < front.len() implies is_unreserved(#[trigger] front[i]) by {
            assert(front[i] == bytes[i]);
        }
        lemma_percent_encode_unreserved(front);
        assert(is_unreserved(bytes[bytes.len() - 1]));
        assert(percent_encode(bytes) =~= ascii_text(bytes));
    }
}

/// Text made of letters, digits, `-`, `.`, `_` and `~` stands in an address
/// as it is.
pub proof fn lemma_unreserved_text_encodes_to_itself(s: Seq<char>)
    requires
        is_unreserved_text(s),
    ensures
        encoded(s) == s,
{
    let bytes = encode_utf8(s);
    assert(vstd::utf8::is_ascii_chars(s)) by {
        assert forall|i: int| 0 <= i < s.len() implies '\0' <= #[trigger] s[i] <= '\u{7f}' by {
            assert(is_unreserved_char(s[i]));
        }
    }
    vstd::utf8::is_ascii_chars_encode_utf8(s);
    assert forall|i: int| 0 <= i < bytes.len() implies is_unreserved(#[trigger] bytes[i]) by {
        assert(is_unreserved_char(s[i]));
        assert(bytes[i] == s[i] as u8);
    }
    lemma_percent_encode_unreserved(bytes);
    assert forall|i: int| 0 <= i < s.len() implies ascii_text(bytes)[i] == s[i] by {
        assert(is_unreserved_char(s[i]));
        assert(bytes[i] == s[i] as u8);
    }
    assert(ascii_text(bytes) =~= s);
}

/// The UTF-8 bytes of two pieces of text put together are the bytes of the
/// first followed by the bytes of the second.
pub proof fn lemma_encode_utf8_concat(first: Seq<char>, second: Seq<char>)
    ensures
        encode_utf8(first + second) == encode_utf8(first) + encode_utf8(second),
    decreases first.len(),
{
    if first.len() == 0 {
        assert(first + second =~= second);
        assert(encode_utf8(first) + encode_utf8(second) =~= encode_utf8(second));
    } else {
        assert((first + second).drop_first() =~= first.drop_first() + second);
        lemma_encode_utf8_concat(first.drop_first(), second);
        assert(encode_utf8(first + second) =~= encode_utf8(first) + encode_utf8(second));
    }
}

/// Percent-encoding goes byte by byte: bytes put together encode to their
/// encodings put together.
pub proof fn lemma_percent_encode_concat(first: Seq<u8>, second: Seq<u8>)
    ensures
        percent_encode(first + second) == percent_encode(first) + percent_encode(second),
    decreases second.len(),
{
    if second.len() == 0 {
        assert(first + second =~= first);
        assert(percent_encode(first) + percent_encode(second) =~= percent_encode(first));
    } else {
        assert((first + second).drop_last() =~= first + second.drop_last());
        lemma_percent_encode_concat(first, second.drop_last());
        assert(percent_encode(first + second) =~= percent_encode(first) + percent_encode(second));
    }
}

/// Reading percent-encoded bytes back gives the bytes again.
pub proof fn lemma_percent_decode_encode(bytes: Seq<u8>)
    ensures
        percent_decode(percent_encode(bytes)) == bytes,
    decreases bytes.len(),
{
    if bytes.len() == 0 {
        assert(percent_encode(bytes) =~= Seq::<char>::empty());
        assert(percent_decode(percent_encode(bytes)) =~= bytes);
    } else {
        let first = bytes[0];
        let rest = bytes.drop_first();
        let head = percent_encode_byte(first);
        let tail = percent_encode(rest);
        assert(percent_encode(seq![first]) =~= head) by {
            assert(seq![first].drop_last() =~= Seq::<u8>::empty());
            assert(percent_encode(Seq::<u8>::empty()) =~= Seq::<char>::empty());
        }
        assert(seq![first] + rest =~= bytes);
        lemma_percent_encode_concat(seq![first], rest);
        let text = percent_encode(bytes);
        assert(text == head + tail);
        lemma_percent_decode_encode(rest);
        if is_unreserved(first) {
            assert(text[0] == first as char);
            assert(text[0] != '%');
            assert(text.skip(1) =~= tail);
            assert((first as char) as u8 == first);
        } else {
            let hi = first as int / 16;
            let lo = first as int % 16;
            assert(0 <= hi < 16 && 0 <= lo < 16);
            assert(hex_value(hex_digit(hi)) == hi);
            assert(hex_value(hex_digit(lo)) == lo);
            assert(text[0] == '%' && text[1] == hex_digit(hi) && text[2] == hex_digit(lo));
            assert(text.skip(3) =~= tail);
            assert((hi * 16 + lo) as u8 == first);
        }
        assert(percent_decode(text) =~= seq![first] + rest);
    }
}

/// Encoding loses nothing: two pieces of text that stand alike in an address
/// are the same text.
pub proof fn lemma_encoding_loses_nothing(first: Seq<char>, second: Seq<char>)
    requires
        encoded(first) == encoded(second),
    ensures
        first == second,
{
    lemma_percent_decode_encode(encode_utf8(first));
    lemma_percent_decode_encode(encode_utf8(second));
    vstd::utf8::encode_utf8_decode_utf8(first);
    vstd::utf8::encode_utf8_decode_utf8(second);
}

} // verus!
