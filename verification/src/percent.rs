//! Percent-encoding of the path component, in both directions.

use vstd::prelude::*;
use vstd::utf8::{decode_utf8, encode_scalar, encode_utf8, is_ascii_chars, valid_utf8};
use percent_encoding::{percent_decode_str, percent_encode_byte};

verus! {

/// The value of a hexadecimal digit, in either case.
pub open spec fn hex_value(b: u8) -> Option<u8> {
    if 0x30 <= b <= 0x39 {
        Some((b - 0x30) as u8)
    } else if 0x41 <= b <= 0x46 {
        Some((b - 0x41 + 10) as u8)
    } else if 0x61 <= b <= 0x66 {
        Some((b - 0x61 + 10) as u8)
    } else {
        None
    }
}

/// Whether `bytes` begins with `%` and two hexadecimal digits.
pub open spec fn starts_with_escape(bytes: Seq<u8>) -> bool {
    bytes.len() >= 3 && bytes[0] == 0x25 && hex_value(bytes[1]) is Some && hex_value(bytes[2])
        is Some
}

/// The bytes that `bytes` stands for: every `%` followed by two hexadecimal
/// digits is replaced by the byte they name, everything else is kept.
pub open spec fn percent_decoded(bytes: Seq<u8>) -> Seq<u8>
    decreases bytes.len(),
{
    if bytes.len() == 0 {
        Seq::empty()
    } else if starts_with_escape(bytes) {
        seq![(hex_value(bytes[1])->0 * 16 + hex_value(bytes[2])->0) as u8] + percent_decoded(
            bytes.skip(3),
        )
    } else {
        seq![bytes[0]] + percent_decoded(bytes.skip(1))
    }
}

/// The bytes that the text `path` stands for once its escapes are resolved.
pub open spec fn decoded_bytes(path: Seq<char>) -> Seq<u8> {
    percent_decoded(encode_utf8(path))
}

/// The description `std` gives of a byte sequence that is not UTF-8.
pub uninterp spec fn utf8_error_text(bytes: Seq<u8>) -> Seq<char>;

/// Resolves the escapes of `input` and reads the result as UTF-8, by
/// `percent_decode_str` and `PercentDecode::decode_utf8` of `percent-encoding`.
///
/// Assumed: the bytes decoded are those of [`percent_decoded`]. Where they are
/// well-formed UTF-8 the result is the text they encode. Where they are not,
/// the result is the message of the `Utf8Error` of `std`, which depends on
/// those bytes alone.
#[verifier::external_body]
pub(crate) fn percent_decode_utf8(input: &str) -> (r: Result<String, String>)
    ensures
        match r {
            Ok(text) => valid_utf8(decoded_bytes(input@)) && encode_utf8(text@) == decoded_bytes(
                input@,
            ),
            Err(reason) => !valid_utf8(decoded_bytes(input@)) && reason@ == utf8_error_text(
                decoded_bytes(input@),
            ),
        },
{
    match percent_decode_str(input).decode_utf8() {
        Ok(text) => Ok(text.into_owned()),
        Err(e) => Err(e.to_string()),
    }
}

/// Whether a byte of a path must be escaped in a URL: every byte that is not
/// ASCII, every control character, the space, and the characters that would
/// end the path or are unsafe in it.
pub open spec fn needs_escape(b: u8) -> bool {
    ||| b >= 0x80
    ||| b < 0x20
    ||| b == 0x7f
    ||| b == 0x20  // space
    ||| b == 0x22  // "
    ||| b == 0x23  // #
    ||| b == 0x3c  // <
    ||| b == 0x3e  // >
    ||| b == 0x3f  // ?
    ||| b == 0x60  // `
    ||| b == 0x7b  // {
    ||| b == 0x7d  // }
}

/// The upper-case hexadecimal digit for a value below sixteen.
pub open spec fn hex_digit(n: int) -> char {
    if n < 10 {
        ((0x30 + n) as u8) as char
    } else {
        ((0x41 + n - 10) as u8) as char
    }
}

/// The escape of one byte: `%` and its two hexadecimal digits.
pub open spec fn escape(b: u8) -> Seq<char> {
    seq!['%', hex_digit(b as int / 16), hex_digit(b as int % 16)]
}

/// What one byte of a path becomes in a URL.
pub open spec fn encoded_byte(b: u8) -> Seq<char> {
    if needs_escape(b) {
        escape(b)
    } else {
        seq![b as char]
    }
}

/// The percent-encoding of a path given as bytes.
pub open spec fn percent_encoded(bytes: Seq<u8>) -> Seq<char>
    decreases bytes.len(),
{
    if bytes.len() == 0 {
        Seq::empty()
    } else {
        encoded_byte(bytes[0]) + percent_encoded(bytes.skip(1))
    }
}

/// `percent_encode_byte` of `percent-encoding`.
///
/// Assumed: the result is `%` followed by the two upper-case hexadecimal
/// digits of the byte, as the table in that function spells out.
pub assume_specification[ percent_encode_byte ](byte: u8) -> (s: &'static str)
    ensures
        s@ == escape(byte),
;

/// Encoding a sequence that ends in `b` appends the encoding of `b`.
pub proof fn lemma_percent_encoded_push(bytes: Seq<u8>, b: u8)
    ensures
        percent_encoded(bytes.push(b)) == percent_encoded(bytes) + encoded_byte(b),
    decreases bytes.len(),
{
    if bytes.len() == 0 {
        assert(bytes.push(b).skip(1) =~= bytes);
        assert(percent_encoded(bytes.push(b)) =~= encoded_byte(b) + percent_encoded(bytes));
    } else {
        assert(bytes.push(b).skip(1) =~= bytes.skip(1).push(b));
        lemma_percent_encoded_push(bytes.skip(1), b);
        assert(percent_encoded(bytes.push(b)) =~= percent_encoded(bytes) + encoded_byte(b));
    }
}

/// Whether a byte of a path must be escaped.
pub fn must_escape(b: u8) -> (r: bool)
    ensures
        r == needs_escape(b),
{
    b >= 0x80 || b < 0x20 || b == 0x7f || b == 0x20 || b == 0x22 || b == 0x23 || b == 0x3c || b
        == 0x3e || b == 0x3f || b == 0x60 || b == 0x7b || b == 0x7d
}

/// Percent-encodes a path for use in a URL.
pub fn percent_encode_path(path: &str) -> (r: String)
    ensures
        r@ == percent_encoded(encode_utf8(path@)),
{
    let bytes = path.as_bytes();
    let mut out = String::new();
    let mut i: usize = 0;
    assert(bytes@.take(0) =~= Seq::<u8>::empty());
    while i < bytes.len()
        invariant
            i <= bytes@.len(),
            out@ == percent_encoded(bytes@.take(i as int)),
        decreases bytes@.len() - i,
    {
        let b = bytes[i];
        proof {
            lemma_percent_encoded_push(bytes@.take(i as int), b);
            assert(bytes@.take(i + 1) =~= bytes@.take(i as int).push(b));
        }
        if must_escape(b) {
            out.append(percent_encode_byte(b));
        } else {
            out.push(b as char);
        }
        i = i + 1;
    }
    assert(bytes@.take(i as int) =~= bytes@);
    out
}

/// The bytes of a text that holds ASCII characters only.
pub open spec fn ascii_bytes(text: Seq<char>) -> Seq<u8> {
    Seq::new(text.len(), |i: int| text[i] as u8)
}

/// Bytes without a `%` stand for themselves.
pub proof fn lemma_percent_decoded_plain(bytes: Seq<u8>)
    requires
        !bytes.contains(0x25u8),
    ensures
        percent_decoded(bytes) == bytes,
    decreases bytes.len(),
{
    if bytes.len() > 0 {
        assert(bytes[0] != 0x25u8);
        assert forall|i: int| 0 <= i < bytes.skip(1).len() implies bytes.skip(1)[i] != 0x25u8 by {
            assert(bytes.skip(1)[i] == bytes[i + 1]);
        }
        lemma_percent_decoded_plain(bytes.skip(1));
        assert(percent_decoded(bytes) =~= bytes);
    } else {
        assert(percent_decoded(bytes) =~= bytes);
    }
}

/// The two digits of an escape name the byte that was escaped.
proof fn lemma_hex_digits(b: u8)
    ensures
        hex_value(hex_digit(b as int / 16) as u8) == Some((b / 16) as u8),
        hex_value(hex_digit(b as int % 16) as u8) == Some((b % 16) as u8),
        ((b / 16) * 16 + b % 16) as u8 == b,
{
}

/// What a byte becomes in a URL is ASCII, and decodes to that byte unless the
/// byte is a `%`, which is written as it stands.
proof fn lemma_encoded_byte_decodes(b: u8, rest: Seq<u8>)
    requires
        b != 0x25u8,
    ensures
        is_ascii_chars(encoded_byte(b)),
        percent_decoded(ascii_bytes(encoded_byte(b)) + rest) == seq![b] + percent_decoded(rest),
{
    let head = ascii_bytes(encoded_byte(b));
    let all = head + rest;
    if needs_escape(b) {
        lemma_hex_digits(b);
        assert(head.len() == 3);
        assert(all[0] == 0x25u8);
        assert(all[1] == hex_digit(b as int / 16) as u8);
        assert(all[2] == hex_digit(b as int % 16) as u8);
        assert(all.skip(3) =~= rest);
        assert(starts_with_escape(all));
    } else {
        assert(head.len() == 1);
        assert(all[0] == b);
        assert(all.skip(1) =~= rest);
        assert(!starts_with_escape(all));
    }
}

/// The encoding of a path holds ASCII characters only.
pub proof fn lemma_percent_encoded_is_ascii(bytes: Seq<u8>)
    ensures
        is_ascii_chars(percent_encoded(bytes)),
    decreases bytes.len(),
{
    if bytes.len() > 0 {
        lemma_percent_encoded_is_ascii(bytes.skip(1));
        assert(is_ascii_chars(encoded_byte(bytes[0]))) by {
            if needs_escape(bytes[0]) {
                lemma_hex_digits(bytes[0]);
            }
        }
    }
}

/// Decoding undoes encoding, for bytes without a `%`.
///
/// A `%` is written as it stands, so a path such as `a%41` is written as
/// `a%41` and read back as `aA`.
pub proof fn lemma_decode_inverts_encode(bytes: Seq<u8>)
    requires
        !bytes.contains(0x25u8),
    ensures
        percent_decoded(encode_utf8(percent_encoded(bytes))) == bytes,
{
    lemma_percent_encoded_is_ascii(bytes);
    vstd::utf8::is_ascii_chars_encode_utf8(percent_encoded(bytes));
    assert(encode_utf8(percent_encoded(bytes)) =~= ascii_bytes(percent_encoded(bytes)));
    lemma_ascii_decode_inverts_encode(bytes);
}

proof fn lemma_ascii_decode_inverts_encode(bytes: Seq<u8>)
    requires
        !bytes.contains(0x25u8),
    ensures
        percent_decoded(ascii_bytes(percent_encoded(bytes))) == bytes,
    decreases bytes.len(),
{
    if bytes.len() == 0 {
        assert(ascii_bytes(percent_encoded(bytes)) =~= Seq::<u8>::empty());
        assert(percent_decoded(Seq::<u8>::empty()) =~= bytes);
    } else {
        let rest = bytes.skip(1);
        assert(bytes[0] != 0x25u8);
        assert forall|i: int| 0 <= i < rest.len() implies rest[i] != 0x25u8 by {
            assert(rest[i] == bytes[i + 1]);
        }
        lemma_ascii_decode_inverts_encode(rest);
        lemma_encoded_byte_decodes(bytes[0], ascii_bytes(percent_encoded(rest)));
        assert(ascii_bytes(percent_encoded(bytes)) =~= ascii_bytes(encoded_byte(bytes[0]))
            + ascii_bytes(percent_encoded(rest)));
        assert(seq![bytes[0]] + rest =~= bytes);
    }
}

/// The UTF-8 encoding of a character holds the byte of `%` only where the
/// character is `%`.
proof fn lemma_scalar_percent_sign(c: char)
    requires
        c != '%',
    ensures
        !encode_scalar(c as u32).contains(0x25u8),
{
    let v = c as u32;
    let e = encode_scalar(v);
    if v <= 0x7F {
        assert(v != 0x25) by {
            vstd::utf8::char_u32_cast(c, v);
        }
        assert((v & 0x7F) as u8 != 0x25u8) by (bit_vector)
            requires
                v <= 0x7F && v != 0x25,
        ;
    }
    assert(0xC0u8 | ((v >> 6) & 0x1F) as u8 != 0x25u8) by (bit_vector);
    assert(0xE0u8 | ((v >> 12) & 0x0F) as u8 != 0x25u8) by (bit_vector);
    assert(0xF0u8 | ((v >> 18) & 0x7) as u8 != 0x25u8) by (bit_vector);
    assert(0x80u8 | (v & 0x3F) as u8 != 0x25u8) by (bit_vector);
    assert(0x80u8 | ((v >> 6) & 0x3F) as u8 != 0x25u8) by (bit_vector);
    assert(0x80u8 | ((v >> 12) & 0x3F) as u8 != 0x25u8) by (bit_vector);
    assert forall|i: int| 0 <= i < e.len() implies e[i] != 0x25u8 by {}
}

/// A text without the character `%` has no byte of `%` in UTF-8.
pub proof fn lemma_percent_sign_byte(text: Seq<char>)
    requires
        !text.contains('%'),
    ensures
        !encode_utf8(text).contains(0x25u8),
    decreases text.len(),
{
    if text.len() > 0 {
        let head = encode_scalar(text[0] as u32);
        let tail = encode_utf8(text.drop_first());
        assert(text[0] != '%');
        assert forall|i: int| 0 <= i < text.drop_first().len() implies text.drop_first()[i]
            != '%' by {
            assert(text.drop_first()[i] == text[i + 1]);
        }
        lemma_scalar_percent_sign(text[0]);
        lemma_percent_sign_byte(text.drop_first());
        assert forall|i: int| 0 <= i < (head + tail).len() implies (head + tail)[i] != 0x25u8 by {
            if i < head.len() {
                assert((head + tail)[i] == head[i]);
            } else {
                assert((head + tail)[i] == tail[i - head.len()]);
            }
        }
    }
}

/// A path without a `%` is read back from its encoding as it was written.
pub proof fn lemma_path_round_trip(path: Seq<char>)
    requires
        !path.contains('%'),
    ensures
        valid_utf8(decoded_bytes(percent_encoded(encode_utf8(path)))),
        decode_utf8(decoded_bytes(percent_encoded(encode_utf8(path)))) == path,
{
    lemma_percent_sign_byte(path);
    lemma_decode_inverts_encode(encode_utf8(path));
    vstd::utf8::encode_utf8_valid_utf8(path);
    vstd::utf8::encode_utf8_decode_utf8(path);
}

/// A text without a `%` is its own decoding.
pub proof fn lemma_literal_path(path: Seq<char>)
    requires
        !path.contains('%'),
    ensures
        valid_utf8(decoded_bytes(path)),
        decode_utf8(decoded_bytes(path)) == path,
{
    lemma_percent_sign_byte(path);
    lemma_percent_decoded_plain(encode_utf8(path));
    vstd::utf8::encode_utf8_valid_utf8(path);
    vstd::utf8::encode_utf8_decode_utf8(path);
}

/// The encoding of a path holds neither `?` nor `#`: in a descriptor, the
/// first `?` is always the one that starts the query.
pub proof fn lemma_percent_encoded_has_no_delimiter(bytes: Seq<u8>)
    ensures
        !percent_encoded(bytes).contains('?'),
        !percent_encoded(bytes).contains('#'),
    decreases bytes.len(),
{
    let text = percent_encoded(bytes);
    if bytes.len() > 0 {
        let head = encoded_byte(bytes[0]);
        let tail = percent_encoded(bytes.skip(1));
        lemma_percent_encoded_has_no_delimiter(bytes.skip(1));
        assert forall|i: int| 0 <= i < head.len() implies head[i] != '?' && head[i] != '#' by {
            if needs_escape(bytes[0]) {
                lemma_hex_digits(bytes[0]);
            }
        }
        assert forall|i: int| 0 <= i < text.len() implies text[i] != '?' && text[i] != '#' by {
            if i < head.len() {
                assert(text[i] == head[i]);
            } else {
                assert(text[i] == tail[i - head.len()]);
            }
        }
    }
}

} // verus!
