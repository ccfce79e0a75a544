//! Percent-encoding of a name for use as a single path segment of a URL.

use vstd::prelude::*;
use vstd::string::*;
use vstd::utf8::{encode_utf8, encode_utf8_decode_utf8, is_ascii_chars};
use vstd::utf8::is_ascii_chars_encode_utf8;

verus! {

/// The bytes that stand for themselves.
pub open spec fn is_unreserved(b: u8) -> bool {
    ||| 'A' <= b as char <= 'Z'
    ||| 'a' <= b as char <= 'z'
    ||| '0' <= b as char <= '9'
    ||| b as char == '-'
    ||| b as char == '_'
    ||| b as char == '.'
    ||| b as char == '~'
}

/// The upper-case hexadecimal digit for a number below sixteen.
pub open spec fn hex_digit(d: u8) -> char {
    if d < 10 {
        (48 + d) as char
    } else {
        (55 + d) as char
    }
}

/// One byte in a path segment: itself, or a percent sign and two hexadecimal digits.
pub open spec fn percent_byte(b: u8) -> Seq<char> {
    if is_unreserved(b) {
        seq![b as char]
    } else {
        seq!['%', hex_digit(b / 16), hex_digit(b % 16)]
    }
}

/// Bytes in a path segment.
pub open spec fn percent_encode(bytes: Seq<u8>) -> Seq<char>
    decreases bytes.len(),
{
    if bytes.len() == 0 {
        Seq::empty()
    } else {
        percent_byte(bytes[0]) + percent_encode(bytes.drop_first())
    }
}

/// The path segment for a name.
pub open spec fn path_segment(name: Seq<char>) -> Seq<char> {
    percent_encode(encode_utf8(name))
}

fn hex_char(d: u8) -> (c: char)
    requires
        d < 16,
    ensures
        c == hex_digit(d),
{
    if d < 10 {
        (48 + d) as char
    } else {
        (55 + d) as char
    }
}

fn unreserved(b: u8) -> (yes: bool)
    ensures
        yes == is_unreserved(b),
{
    let c = b as char;
    ('A' <= c && c <= 'Z') || ('a' <= c && c <= 'z') || ('0' <= c && c <= '9') || c == '-' || c
        == '_' || c == '.' || c == '~'
}

/// Percent-encodes a session name for use as a single path segment. Names are chosen by users; one
/// with a space or a slash in it would otherwise make a URL that points at something else.
pub fn urlencoding_encode(value: &str) -> (encoded: String)
    ensures
        encoded@ == path_segment(value@),
{
    let bytes = value.as_bytes();
    let mut encoded = String::new();
    assert(bytes@.skip(0) =~= bytes@);
    assert(encoded@ + percent_encode(bytes@) =~= percent_encode(bytes@));
    for i in 0..bytes.len()
        invariant
            bytes@ == encode_utf8(value@),
            encoded@ + percent_encode(bytes@.skip(i as int)) == percent_encode(bytes@),
    {
        let b: u8 = bytes[i];
        let ghost before = encoded@;
        assert(bytes@.skip(i as int).drop_first() =~= bytes@.skip(i + 1));
        if unreserved(b) {
            encoded.push(b as char);
        } else {
            encoded.push('%');
            encoded.push(hex_char(b / 16));
            encoded.push(hex_char(b % 16));
        }
        assert(encoded@ =~= before + percent_byte(b));
        assert(encoded@ + percent_encode(bytes@.skip(i + 1)) =~= before + percent_encode(
            bytes@.skip(i as int),
        ));
    }
    assert(percent_encode(bytes@.skip(bytes@.len() as int)) =~= Seq::<char>::empty());
    assert(encoded@ =~= percent_encode(bytes@));
    encoded
}

/// The value of a hexadecimal digit.
pub open spec fn hex_value(c: char) -> Option<u8> {
    if '0' <= c <= '9' {
        Some((c as u8 - 48) as u8)
    } else if 'A' <= c <= 'F' {
        Some((c as u8 - 55) as u8)
    } else if 'a' <= c <= 'f' {
        Some((c as u8 - 87) as u8)
    } else {
        None
    }
}

/// The bytes that a path segment of ASCII characters stands for.
pub open spec fn percent_decode(segment: Seq<char>) -> Option<Seq<u8>>
    decreases segment.len(),
{
    if segment.len() == 0 {
        Some(Seq::empty())
    } else if segment[0] == '%' {
        if segment.len() < 3 {
            None
        } else {
            match (
                hex_value(segment[1]),
                hex_value(segment[2]),
                percent_decode(segment.skip(3)),
            ) {
                (Some(high), Some(low), Some(rest)) => Some(seq![(16 * high + low) as u8] + rest),
                _ => None,
            }
        }
    } else {
        match percent_decode(segment.skip(1)) {
            Some(rest) => Some(seq![segment[0] as u8] + rest),
            None => None,
        }
    }
}

/// A server that decodes the segment finds the bytes that were encoded.
pub proof fn law_percent_decodes(bytes: Seq<u8>)
    ensures
        percent_decode(percent_encode(bytes)) == Some(bytes),
    decreases bytes.len(),
{
    let segment = percent_encode(bytes);
    if bytes.len() > 0 {
        let b = bytes[0];
        let rest = bytes.drop_first();
        law_percent_decodes(rest);
        assert(seq![b] + rest =~= bytes);
        if is_unreserved(b) {
            assert(segment.skip(1) =~= percent_encode(rest));
        } else {
            assert(segment.skip(3) =~= percent_encode(rest));
            assert(hex_value(hex_digit(b / 16)) == Some((b / 16) as u8));
            assert(hex_value(hex_digit(b % 16)) == Some((b % 16) as u8));
        }
    }
}

/// Two sessions never share a path segment.
pub proof fn law_path_segments_are_distinct(a: Seq<char>, b: Seq<char>)
    requires
        path_segment(a) == path_segment(b),
    ensures
        a == b,
{
    law_percent_decodes(encode_utf8(a));
    law_percent_decodes(encode_utf8(b));
    encode_utf8_decode_utf8(a);
    encode_utf8_decode_utf8(b);
}

/// The characters that a path segment is made of.
pub open spec fn is_segment_char(c: char) -> bool {
    c == '%' || (c <= '\u{7f}' && is_unreserved(c as u8))
}

/// A path segment holds nothing that would change which URL is requested: no slash, no space, no
/// question mark, only unreserved characters and escapes.
pub proof fn law_path_segment_is_safe(bytes: Seq<u8>, i: int)
    requires
        0 <= i < percent_encode(bytes).len(),
    ensures
        is_segment_char(percent_encode(bytes)[i]),
        percent_encode(bytes)[i] != '/',
        percent_encode(bytes)[i] != '?',
        percent_encode(bytes)[i] != '#',
        percent_encode(bytes)[i] != ' ',
    decreases bytes.len(),
{
    let n = percent_byte(bytes[0]).len() as int;
    if i < n {
        let c = percent_byte(bytes[0])[i];
        assert(percent_encode(bytes)[i] == c);
    } else {
        law_path_segment_is_safe(bytes.drop_first(), i - n);
        assert(percent_encode(bytes)[i] == percent_encode(bytes.drop_first())[i - n]);
    }
}

/// A name made of unreserved ASCII characters alone is its own path segment.
pub proof fn law_ordinary_names_stay(name: Seq<char>)
    requires
        is_ascii_chars(name),
        forall|i: int| 0 <= i < name.len() ==> is_unreserved(#[trigger] name[i] as u8),
    ensures
        path_segment(name) == name,
{
    is_ascii_chars_encode_utf8(name);
    let bytes = encode_utf8(name);
    assert forall|i: int| 0 <= i < bytes.len() implies is_unreserved(#[trigger] bytes[i])
        && bytes[i] as char == name[i] by {
        assert(name[i] as u8 == bytes[i]);
    }
    lemma_unreserved_stay(bytes);
    assert(percent_encode(bytes) =~= name);
}

proof fn lemma_unreserved_stay(bytes: Seq<u8>)
    requires
        forall|i: int| 0 <= i < bytes.len() ==> is_unreserved(#[trigger] bytes[i]),
    ensures
        percent_encode(bytes).len() == bytes.len(),
        forall|i: int|
            0 <= i < bytes.len() ==> #[trigger] percent_encode(bytes)[i] == bytes[i] as char,
    decreases bytes.len(),
{
    if bytes.len() > 0 {
        let rest = bytes.drop_first();
        assert(is_unreserved(bytes[0]));
        assert forall|i: int| 0 <= i < rest.len() implies is_unreserved(#[trigger] rest[i]) by {
            assert(is_unreserved(bytes[i + 1]));
        }
        lemma_unreserved_stay(rest);
        assert forall|i: int| 0 <= i < bytes.len() implies #[trigger] percent_encode(bytes)[i]
            == bytes[i] as char by {
            if i > 0 {
                assert(percent_encode(bytes)[i] == percent_encode(rest)[i - 1]);
            }
        }
    }
}

/// A name is encoded byte by byte: letters, digits, hyphen, underscore, dot and tilde stand for
/// themselves, and every other byte is a percent sign and two upper-case hexadecimal digits.
pub proof fn law_percent_encodes_byte_by_byte(front: Seq<u8>, back: Seq<u8>, b: u8)
    ensures
        percent_encode(Seq::<u8>::empty()) == Seq::<char>::empty(),
        percent_encode(front + back) == percent_encode(front) + percent_encode(back),
        percent_encode(seq![b]) == if 65 <= b <= 90 || 97 <= b <= 122 || 48 <= b <= 57 || b == 45 || b
            == 95 || b == 46 || b == 126 {
            seq![b as char]
        } else {
            seq![
                '%',
                if b / 16 < 10 {
                    (48 + b / 16) as char
                } else {
                    (55 + b / 16) as char
                },
                if b % 16 < 10 {
                    (48 + b % 16) as char
                } else {
                    (55 + b % 16) as char
                },
            ]
        },
    decreases front.len(),
{
    let one = seq![b];
    assert(one.drop_first() =~= Seq::<u8>::empty());
    reveal_with_fuel(percent_encode, 2);
    assert(percent_encode(one) =~= percent_byte(b));
    if front.len() == 0 {
        assert(front + back =~= back);
        assert(percent_encode(front) + percent_encode(back) =~= percent_encode(back));
    } else {
        law_percent_encodes_byte_by_byte(front.drop_first(), back, b);
        assert((front + back).drop_first() =~= front.drop_first() + back);
        assert(percent_encode(front + back) =~= percent_encode(front) + percent_encode(back));
    }
}

/// The path segment of a name is its UTF-8 bytes, encoded.
pub proof fn law_path_segment_is_the_encoded_name(name: Seq<char>)
    ensures
        path_segment(name) == percent_encode(encode_utf8(name)),
        percent_decode(path_segment(name)) == Some(encode_utf8(name)),
{
    law_percent_decodes(encode_utf8(name));
}

} // verus!
