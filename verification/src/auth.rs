//! Who may use the server: a bearer token in the `Authorization` header.

use vstd::prelude::*;
use vstd::string::*;
use vstd::utf8::encode_utf8_decode_utf8;
use crate::text::{chars_of, has_prefix, opt_view, string_of};

verus! {

/// A byte that a header value may show as text: a visible ASCII character, a space or a tab.
pub open spec fn is_header_text(b: u8) -> bool {
    32 <= b < 127 || b == 9
}

/// The text of a header value, where all of it can be shown as text.
pub open spec fn header_text(value: Seq<u8>) -> Option<Seq<char>> {
    if forall|i: int| 0 <= i < value.len() ==> is_header_text(#[trigger] value[i]) {
        Some(Seq::new(value.len(), |i: int| value[i] as char))
    } else {
        None
    }
}

/// `axum`'s `HeaderValue::to_str`, on the header value that `HeaderValue::from_bytes` makes of these
/// bytes: the bytes as text where each of them is a visible ASCII character, a space or a tab, and
/// nothing otherwise.
#[verifier::external_body]
fn header_to_str(value: &[u8]) -> (text: Option<String>)
    ensures
        opt_view(text) == header_text(value@),
{
    let header = axum::http::HeaderValue::from_bytes(value).ok()?;
    header.to_str().ok().map(|text| text.to_string())
}

/// Whether a presented token is the expected one. Of two tokens of the same length every byte is
/// compared, whichever of them differ.
pub fn tokens_match(expected: &str, presented: &str) -> (same: bool)
    ensures
        same == (expected@ == presented@),
{
    proof {
        encode_utf8_decode_utf8(expected@);
        encode_utf8_decode_utf8(presented@);
    }
    let a = expected.as_bytes();
    let b = presented.as_bytes();
    if a.len() != b.len() {
        return false;
    }
    let mut differences: u8 = 0;
    assert(a@.take(0) =~= b@.take(0));
    for i in 0..a.len()
        invariant
            a@.len() == b@.len(),
            differences == 0 <==> a@.take(i as int) == b@.take(i as int),
    {
        let x: u8 = a[i];
        let y: u8 = b[i];
        let ghost before = differences;
        differences = differences | (x ^ y);
        proof {
            assert(before | (x ^ y) == 0 <==> before == 0 && x == y) by (bit_vector);
            assert(a@.take(i + 1) =~= a@.take(i as int).push(x));
            assert(b@.take(i + 1) =~= b@.take(i as int).push(y));
            if a@.take(i + 1) == b@.take(i + 1) {
                assert(a@.take(i + 1).drop_last() =~= a@.take(i as int));
                assert(b@.take(i + 1).drop_last() =~= b@.take(i as int));
                assert(a@.take(i + 1).last() == x);
                assert(b@.take(i + 1).last() == y);
            }
        }
    }
    assert(a@.take(a@.len() as int) =~= a@);
    assert(b@.take(b@.len() as int) =~= b@);
    differences == 0
}

/// What becomes of a request.
#[derive(Debug, PartialEq)]
pub enum Admission {
    /// It is passed on.
    Forward,
    /// It is answered with this status and this text.
    Refuse { status: u16, body: String },
}

/// The header value that presents a token.
pub open spec fn bearer(token: Seq<char>) -> Seq<char> {
    "Bearer "@ + token
}

/// Whether a request with this `Authorization` header is let in. A server without a token is open.
pub open spec fn is_admitted(token: Option<Seq<char>>, header: Option<Seq<u8>>) -> bool {
    match token {
        None => true,
        Some(token) => header is Some && header_text(header->0) == Some(bearer(token)),
    }
}

/// The bytes of a header that may be missing.
pub open spec fn header_view(header: Option<&[u8]>) -> Option<Seq<u8>> {
    match header {
        Some(value) => Some(value@),
        None => None,
    }
}

/// Lets a request in or turns it away, by its `Authorization` header.
pub fn require_token(token: &Option<String>, header: Option<&[u8]>) -> (admission: Admission)
    ensures
        match admission {
            Admission::Forward => is_admitted(opt_view(*token), header_view(header)),
            Admission::Refuse { status, body } => !is_admitted(opt_view(*token), header_view(header))
                && status == 401 && body@ == "invalid or missing bearer token"@,
        },
{
    let expected = match token {
        Some(expected) => expected,
        None => {
            return Admission::Forward;
        },
    };
    if let Some(value) = header {
        if let Some(text) = header_to_str(value) {
            if has_prefix(text.as_str(), "Bearer ") {
                proof {
                    reveal_strlit("Bearer ");
                }
                let chars = chars_of(text.as_str());
                let presented = string_of(&chars, 7, chars.len());
                proof {
                    assert(text@ =~= bearer(presented@));
                    if text@ == bearer(expected@) {
                        assert(bearer(expected@).skip(7) =~= expected@);
                        assert(bearer(presented@).skip(7) =~= presented@);
                    }
                }
                if tokens_match(expected.as_str(), presented.as_str()) {
                    return Admission::Forward;
                }
            } else {
                proof {
                    if text@ == bearer(expected@) {
                        assert(text@.take("Bearer "@.len() as int) =~= "Bearer "@);
                    }
                }
            }
        }
    }
    Admission::Refuse { status: 401, body: "invalid or missing bearer token".to_owned() }
}

/// One token opens the server and no other does: whoever is let in by a header presented exactly
/// the token of the server.
pub proof fn law_only_the_token_admits(
    token: Seq<char>,
    presented: Seq<char>,
    header: Seq<u8>,
)
    requires
        header_text(header) == Some(bearer(presented)),
    ensures
        is_admitted(Some(token), Some(header)) <==> presented == token,
{
    reveal_strlit("Bearer ");
    assert(bearer(presented).skip(7) =~= presented);
    assert(bearer(token).skip(7) =~= token);
}

/// A server with a token lets in exactly the requests whose header is the word for a bearer, a space
/// and the token, byte by byte, and no request without a header. A server without one lets in all.
pub proof fn law_header_has_to_be_the_token(token: Seq<char>, header: Seq<u8>)
    ensures
        is_admitted(None, None),
        is_admitted(None, Some(header)),
        !is_admitted(Some(token), None),
        is_admitted(Some(token), Some(header)) <==> {
            &&& header.len() == 7 + token.len()
            &&& header.take(7) == seq![66u8, 101u8, 97u8, 114u8, 101u8, 114u8, 32u8]
            &&& forall|i: int|
                0 <= i < token.len() ==> #[trigger] header[7 + i] as char == token[i] && (32
                    <= header[7 + i] < 127 || header[7 + i] == 9)
        },
{
    reveal_strlit("Bearer ");
    let word = seq![66u8, 101u8, 97u8, 114u8, 101u8, 114u8, 32u8];
    let text = Seq::new(header.len(), |i: int| header[i] as char);
    assert(bearer(token).len() == 7 + token.len());
    if is_admitted(Some(token), Some(header)) {
        assert(text == bearer(token));
        assert(text.len() == header.len());
        assert forall|i: int| 0 <= i < 7 implies #[trigger] header[i] == word[i] by {
            assert(is_header_text(header[i]));
            assert(text[i] == "Bearer "@[i]);
        }
        assert(header.take(7) =~= word);
        assert forall|i: int| 0 <= i < token.len() implies #[trigger] header[7 + i] as char
            == token[i] && (32 <= header[7 + i] < 127 || header[7 + i] == 9) by {
            assert(is_header_text(header[7 + i]));
            assert(text[7 + i] == bearer(token)[7 + i]);
        }
    }
    if header.len() == 7 + token.len() && header.take(7) == word && (forall|i: int|
        0 <= i < token.len() ==> #[trigger] header[7 + i] as char == token[i] && (32 <= header[7 + i]
            < 127 || header[7 + i] == 9)) {
        assert forall|i: int| 0 <= i < header.len() implies is_header_text(#[trigger] header[i])
            && header[i] as char == bearer(token)[i] by {
            if i < 7 {
                assert(header[i] == header.take(7)[i]);
            } else {
                assert(header[7 + (i - 7)] as char == token[i - 7]);
            }
        }
        assert(text =~= bearer(token));
    }
}

} // verus!
