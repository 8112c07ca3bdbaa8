//! Percent-encoding of text.

use vstd::prelude::*;
use vstd::utf8::{decode_utf8, encode_utf8, is_ascii_chars, valid_utf8};

verus! {

/// A byte that percent-encoding leaves as it is: a letter, a digit, `-`, `.`, `_` or `~`.
pub open spec fn unreserved(b: u8) -> bool {
    ||| 48 <= b <= 57
    ||| 65 <= b <= 90
    ||| 97 <= b <= 122
    ||| b == 45
    ||| b == 46
    ||| b == 95
    ||| b == 126
}

pub open spec fn hex_digit(d: int) -> char {
    if d < 10 {
        (48 + d) as char
    } else {
        (55 + d) as char
    }
}

pub open spec fn escaped_byte(b: u8) -> Seq<char> {
    if unreserved(b) {
        seq![b as char]
    } else {
        seq!['%', hex_digit(b as int / 16), hex_digit(b as int % 16)]
    }
}

/// Bytes in percent-encoding.
pub open spec fn escaped(bytes: Seq<u8>) -> Seq<char>
    decreases bytes.len(),
{
    if bytes.len() == 0 {
        Seq::empty()
    } else {
        escaped_byte(bytes[0]) + escaped(bytes.drop_first())
    }
}

/// Text in percent-encoding.
pub open spec fn percent_encoded(text: Seq<char>) -> Seq<char> {
    escaped(encode_utf8(text))
}

/// The value of a hexadecimal digit, or 16.
pub open spec fn hex_value(b: u8) -> int {
    if 48 <= b <= 57 {
        b - 48
    } else if 65 <= b <= 70 {
        b - 55
    } else if 97 <= b <= 102 {
        b - 87
    } else {
        16
    }
}

/// Bytes with every `%` and two hexadecimal digits replaced by the byte that they name.
pub open spec fn unescaped(bytes: Seq<u8>) -> Seq<u8>
    decreases bytes.len(),
{
    if bytes.len() == 0 {
        Seq::empty()
    } else if bytes[0] == 37 && bytes.len() >= 3 && hex_value(bytes[1]) < 16 && hex_value(bytes[2])
        < 16 {
        seq![(16 * hex_value(bytes[1]) + hex_value(bytes[2])) as u8] + unescaped(bytes.skip(3))
    } else {
        seq![bytes[0]] + unescaped(bytes.drop_first())
    }
}

/// The text that percent-encoded text stands for; none where its bytes are not UTF-8.
pub open spec fn percent_decoded(text: Seq<char>) -> Option<Seq<char>> {
    let bytes = unescaped(encode_utf8(text));
    if valid_utf8(bytes) {
        Some(decode_utf8(bytes))
    } else {
        None
    }
}

/// Calls `urlencoding::encode`, which percent-encodes every byte of the UTF-8 text except
/// letters, digits, `-`, `.`, `_` and `~`, with upper-case hexadecimal digits.
#[verifier::external_body]
pub(crate) fn percent_encode(text: &str) -> (r: String)
    ensures
        r@ == percent_encoded(text@),
{
    urlencoding::encode(text).into_owned()
}

/// Calls `urlencoding::decode`, which replaces each `%` with two hexadecimal digits by the
/// byte named, leaves everything else, and fails where the bytes are not UTF-8.
#[verifier::external_body]
pub(crate) fn percent_decode(text: &str) -> (r: Option<String>)
    ensures
        crate::text::option_text(r) == percent_decoded(text@),
{
    match urlencoding::decode(text) {
        Ok(decoded) => Some(decoded.into_owned()),
        Err(_) => None,
    }
}

/// ASCII characters as bytes.
pub open spec fn ascii_bytes(s: Seq<char>) -> Seq<u8> {
    s.map_values(|c: char| c as u8)
}

proof fn lemma_hex_digit(d: int)
    requires
        0 <= d < 16,
    ensures
        (hex_digit(d) as u32) < 128,
        hex_value(hex_digit(d) as u8) == d,
        hex_digit(d) as u8 != 37,
{
}

proof fn lemma_escaped(bytes: Seq<u8>)
    ensures
        is_ascii_chars(escaped(bytes)),
        unescaped(ascii_bytes(escaped(bytes))) == bytes,
    decreases bytes.len(),
{
    if bytes.len() == 0 {
        assert(ascii_bytes(escaped(bytes)) =~= Seq::empty());
        assert(unescaped(ascii_bytes(escaped(bytes))) =~= bytes);
    } else {
        let b = bytes[0];
        let rest = bytes.drop_first();
        lemma_escaped(rest);
        lemma_hex_digit(b as int / 16);
        lemma_hex_digit(b as int % 16);
        let tail = ascii_bytes(escaped(rest));
        let whole = ascii_bytes(escaped(bytes));
        if unreserved(b) {
            assert(whole.drop_first() =~= tail);
            assert(whole[0] == b);
        } else {
            assert(whole.skip(3) =~= tail);
            assert(whole[0] == 37);
            assert(whole[1] == hex_digit(b as int / 16) as u8);
            assert(whole[2] == hex_digit(b as int % 16) as u8);
        }
        assert(unescaped(whole) =~= seq![b] + rest);
        assert(seq![b] + rest =~= bytes);
        assert forall|i: int| 0 <= i < escaped(bytes).len() implies (#[trigger] escaped(bytes)[i]
            as u32) < 128 by {
            let n = escaped_byte(b).len();
            if i >= n {
                assert(escaped(bytes)[i] == escaped(rest)[i - n]);
            }
        }
    }
}

/// Decoding gives back what was encoded, whatever the text.
pub proof fn percent_decoding_inverts_encoding(text: Seq<char>)
    ensures
        percent_decoded(percent_encoded(text)) == Some(text),
        is_ascii_chars(percent_encoded(text)),
{
    let bytes = encode_utf8(text);
    lemma_escaped(bytes);
    vstd::utf8::is_ascii_chars_encode_utf8(escaped(bytes));
    assert(encode_utf8(escaped(bytes)) =~= ascii_bytes(escaped(bytes)));
    vstd::utf8::encode_utf8_valid_utf8(text);
    vstd::utf8::encode_utf8_decode_utf8(text);
}

/// Percent-encoded text holds letters, digits, `-`, `.`, `_`, `~` and `%` alone.
pub open spec fn encoded_char(c: char) -> bool {
    c == '%' || ((c as u32) < 128 && unreserved(c as u8))
}

proof fn lemma_escaped_chars(bytes: Seq<u8>)
    ensures
        forall|i: int| 0 <= i < escaped(bytes).len() ==> encoded_char(#[trigger] escaped(bytes)[i]),
    decreases bytes.len(),
{
    if bytes.len() > 0 {
        let b = bytes[0];
        let rest = bytes.drop_first();
        lemma_escaped_chars(rest);
        let n = escaped_byte(b).len();
        assert forall|i: int| 0 <= i < escaped(bytes).len() implies encoded_char(
            #[trigger] escaped(bytes)[i],
        ) by {
            if i >= n {
                assert(escaped(bytes)[i] == escaped(rest)[i - n]);
            } else if i == 1 {
                assert(0 <= b as int / 16 < 16);
            }
        }
    }
}

/// No separator of a URI stands in percent-encoded text.
pub proof fn percent_encoded_has_no_separators(text: Seq<char>)
    ensures
        forall|i: int|
            0 <= i < percent_encoded(text).len() ==> encoded_char(
                #[trigger] percent_encoded(text)[i],
            ),
{
    lemma_escaped_chars(encode_utf8(text));
}

/// Letters, digits and the signs `-`, `.`, `_` and `~` stand for themselves; every other byte
/// is written as a percent sign and two digits of base sixteen in upper case.
pub proof fn other_bytes_are_escaped(b: u8, rest: Seq<u8>)
    ensures
        ({
            let c = b as char;
            let plain = ('a' <= c && c <= 'z') || ('A' <= c && c <= 'Z') || ('0' <= c && c <= '9')
                || c == '-' || c == '.' || c == '_' || c == '~';
            &&& plain ==> escaped(seq![b] + rest) == seq![c] + escaped(rest)
            &&& !plain ==> escaped(seq![b] + rest) == seq![
                '%',
                hex_digit(b as int / 16),
                hex_digit(b as int % 16),
            ] + escaped(rest)
        }),
        forall|d: int| 0 <= d < 10 ==> #[trigger] hex_digit(d) as int == '0' as int + d,
        forall|d: int| 10 <= d < 16 ==> #[trigger] hex_digit(d) as int == 'A' as int + (d - 10),
{
    assert((seq![b] + rest).drop_first() =~= rest);
    assert((seq![b] + rest)[0] == b);
}

} // verus!
