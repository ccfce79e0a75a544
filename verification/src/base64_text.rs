//! Bytes as base64 text, the form in which a picture is handed to a caller.

use vstd::prelude::*;
use vstd::string::*;
use base64::Engine;

verus! {

/// The character for a number below 64: letters, digits, plus and slash, in this order.
pub open spec fn base64_digit(d: nat) -> char {
    if d < 26 {
        (65 + d) as char
    } else if d < 52 {
        (71 + d) as char
    } else if d < 62 {
        (d - 4) as char
    } else if d == 62 {
        '+'
    } else {
        '/'
    }
}

/// One to three bytes as one number, with zeros for those that are missing.
pub open spec fn group_value(bytes: Seq<u8>) -> nat {
    let second = if bytes.len() > 1 {
        bytes[1] as nat
    } else {
        0
    };
    let third = if bytes.len() > 2 {
        bytes[2] as nat
    } else {
        0
    };
    65536 * bytes[0] as nat + 256 * second + third
}

/// The four characters for one to three bytes: six bits each, and an equals sign for each byte that
/// is missing.
pub open spec fn base64_group(bytes: Seq<u8>) -> Seq<char> {
    let n = group_value(bytes);
    seq![
        base64_digit(n / 262144),
        base64_digit(n / 4096 % 64),
        if bytes.len() > 1 {
            base64_digit(n / 64 % 64)
        } else {
            '='
        },
        if bytes.len() > 2 {
            base64_digit(n % 64)
        } else {
            '='
        },
    ]
}

/// The base64 text, in the standard alphabet with padding, of a sequence of bytes.
pub open spec fn base64_standard(bytes: Seq<u8>) -> Seq<char>
    decreases bytes.len(),
{
    if bytes.len() == 0 {
        Seq::empty()
    } else if bytes.len() <= 3 {
        base64_group(bytes)
    } else {
        base64_group(bytes.take(3)) + base64_standard(bytes.skip(3))
    }
}

/// `base64`'s `Engine::encode` with the engine `STANDARD`: four characters of the standard alphabet
/// for every three bytes, the last group padded. It panics where that text cannot be allocated.
#[verifier::external_body]
pub(crate) fn base64_encode(bytes: &Vec<u8>) -> (text: String)
    requires
        4 * ((bytes@.len() + 2) / 3) <= isize::MAX,
    ensures
        text@ == base64_standard(bytes@),
{
    base64::engine::general_purpose::STANDARD.encode(bytes)
}

/// The number that a character of the alphabet stands for.
pub open spec fn base64_value(c: char) -> Option<nat> {
    if 'A' <= c <= 'Z' {
        Some((c as nat - 65) as nat)
    } else if 'a' <= c <= 'z' {
        Some((c as nat - 71) as nat)
    } else if '0' <= c <= '9' {
        Some((c as nat + 4) as nat)
    } else if c == '+' {
        Some(62)
    } else if c == '/' {
        Some(63)
    } else {
        None
    }
}

/// The bytes that four characters stand for.
pub open spec fn group_bytes(text: Seq<char>) -> Option<Seq<u8>> {
    match (base64_value(text[0]), base64_value(text[1])) {
        (Some(a), Some(b)) => {
            let first = (4 * a + b / 16) as u8;
            match (base64_value(text[2]), base64_value(text[3])) {
                (Some(c), Some(d)) => Some(
                    seq![first, (b % 16 * 16 + c / 4) as u8, (c % 4 * 64 + d) as u8],
                ),
                (Some(c), None) => Some(seq![first, (b % 16 * 16 + c / 4) as u8]),
                (None, _) => Some(seq![first]),
            }
        },
        _ => None,
    }
}

/// The bytes that a base64 text stands for.
pub open spec fn base64_bytes(text: Seq<char>) -> Option<Seq<u8>>
    decreases text.len(),
{
    if text.len() == 0 {
        Some(Seq::empty())
    } else if text.len() < 4 {
        None
    } else {
        match (group_bytes(text.take(4)), base64_bytes(text.skip(4))) {
            (Some(first), Some(rest)) => Some(first + rest),
            _ => None,
        }
    }
}

proof fn lemma_digit_value(d: nat)
    requires
        d < 64,
    ensures
        base64_value(base64_digit(d)) == Some(d),
{
}

/// The four numbers of six bits that three bytes are cut into.
proof fn lemma_six_bits(x: nat, y: nat, z: nat)
    requires
        x < 256,
        y < 256,
        z < 256,
    ensures
        (65536 * x + 256 * y + z) / 262144 == x / 4,
        (65536 * x + 256 * y + z) / 4096 % 64 == x % 4 * 16 + y / 16,
        (65536 * x + 256 * y + z) / 64 % 64 == y % 16 * 4 + z / 64,
        (65536 * x + 256 * y + z) % 64 == z % 64,
{
    let n = 65536 * x + 256 * y + z;
    assert(n / 262144 == x / 4);
    assert(n / 4096 == 64 * (x / 4) + (x % 4 * 16 + y / 16));
    assert(n / 64 == 64 * (16 * x + y / 16) + (y % 16 * 4 + z / 64));
    assert(n == 64 * (1024 * x + 4 * y + z / 64) + z % 64);
}

/// The numbers that the four characters of a group stand for.
proof fn lemma_group_values(bytes: Seq<u8>, x: nat, y: nat, z: nat)
    requires
        0 < bytes.len() <= 3,
        x == bytes[0],
        y == if bytes.len() > 1 {
            bytes[1] as nat
        } else {
            0
        },
        z == if bytes.len() > 2 {
            bytes[2] as nat
        } else {
            0
        },
    ensures
        ({
            let text = base64_group(bytes);
            &&& base64_value(text[0]) == Some(x / 4)
            &&& base64_value(text[1]) == Some(x % 4 * 16 + y / 16)
            &&& base64_value(text[2]) == if bytes.len() > 1 {
                Some(y % 16 * 4 + z / 64)
            } else {
                None
            }
            &&& base64_value(text[3]) == if bytes.len() > 2 {
                Some(z % 64)
            } else {
                None
            }
        }),
{
    lemma_six_bits(x, y, z);
    lemma_digit_value(x / 4);
    lemma_digit_value(x % 4 * 16 + y / 16);
    lemma_digit_value(y % 16 * 4 + z / 64);
    lemma_digit_value(z % 64);
}

proof fn lemma_group_reads_back(bytes: Seq<u8>)
    requires
        0 < bytes.len() <= 3,
    ensures
        group_bytes(base64_group(bytes)) == Some(bytes),
{
    let x = bytes[0] as nat;
    let y = if bytes.len() > 1 {
        bytes[1] as nat
    } else {
        0
    };
    let z = if bytes.len() > 2 {
        bytes[2] as nat
    } else {
        0
    };
    lemma_group_values(bytes, x, y, z);
    assert(4 * (x / 4) + (x % 4 * 16 + y / 16) / 16 == x);
    assert((x % 4 * 16 + y / 16) % 16 * 16 + (y % 16 * 4 + z / 64) / 4 == y);
    assert((y % 16 * 4 + z / 64) % 4 * 64 + z % 64 == z);
    assert(group_bytes(base64_group(bytes))->0 =~= bytes);
}

/// A caller that decodes the text finds the bytes of the picture, all of them and no others.
pub proof fn law_base64_decodes(bytes: Seq<u8>)
    ensures
        base64_bytes(base64_standard(bytes)) == Some(bytes),
    decreases bytes.len(),
{
    let text = base64_standard(bytes);
    if bytes.len() == 0 {
    } else if bytes.len() <= 3 {
        lemma_group_reads_back(bytes);
        assert(text.take(4) =~= text);
        assert(text.skip(4) =~= Seq::<char>::empty());
        assert(base64_bytes(text.skip(4)) == Some(Seq::<u8>::empty()));
        assert(bytes + Seq::<u8>::empty() =~= bytes);
    } else {
        lemma_group_reads_back(bytes.take(3));
        law_base64_decodes(bytes.skip(3));
        assert(text.take(4) =~= base64_group(bytes.take(3)));
        assert(text.skip(4) =~= base64_standard(bytes.skip(3)));
        assert(bytes.take(3) + bytes.skip(3) =~= bytes);
    }
}

} // verus!
