//! Logging in to the web server from inside the page, so that the browser keeps the cookie.

use vstd::prelude::*;
use vstd::string::*;
use crate::json::{as_bool, member, Json, JsonView};
use crate::text::{concat2, concat3};

verus! {

/// The lower-case hexadecimal digit for a number below sixteen.
pub open spec fn lower_hex(d: nat) -> char {
    if d < 10 {
        (48 + d) as char
    } else {
        (87 + d) as char
    }
}

/// One character inside a JSON string literal.
pub open spec fn escaped_char(c: char) -> Seq<char> {
    if c == '"' {
        seq!['\\', '"']
    } else if c == '\\' {
        seq!['\\', '\\']
    } else if c == '\u{8}' {
        seq!['\\', 'b']
    } else if c == '\t' {
        seq!['\\', 't']
    } else if c == '\n' {
        seq!['\\', 'n']
    } else if c == '\u{c}' {
        seq!['\\', 'f']
    } else if c == '\r' {
        seq!['\\', 'r']
    } else if c <= '\u{1f}' {
        seq!['\\', 'u', '0', '0', lower_hex(c as nat / 16), lower_hex(c as nat % 16)]
    } else {
        seq![c]
    }
}

/// The characters of a JSON string literal, without its quotes.
pub open spec fn escaped(s: Seq<char>) -> Seq<char>
    decreases s.len(),
{
    if s.len() == 0 {
        Seq::empty()
    } else {
        escaped_char(s[0]) + escaped(s.drop_first())
    }
}

/// A text as a JSON string literal.
pub open spec fn string_literal(s: Seq<char>) -> Seq<char> {
    seq!['"'] + escaped(s) + seq!['"']
}

/// `serde_json::Value`'s `Display` for a string value: the text in double quotes, with the quote,
/// the backslash and the control characters below the space escaped, and every other character as
/// it is.
#[verifier::external_body]
fn json_string_literal(text: &str) -> (literal: String)
    ensures
        literal@ == string_literal(text@),
{
    serde_json::Value::String(text.to_string()).to_string()
}

/// The script that logs in, up to the token.
pub const LOGIN_BEFORE_TOKEN: &'static str = "(async () => {
            const response = await fetch('/command/login', {
                method: 'POST',
                headers: { 'content-type': 'application/json' },
                body: JSON.stringify({ auth_token: ";

/// The script that logs in, behind the token.
pub const LOGIN_AFTER_TOKEN: &'static str = ", remember_me: false }),
            });
            const body = await response.json().catch(() => ({}));
            return JSON.stringify({ ok: response.ok, status: response.status, body });
        })()";

/// The script that posts a token to the login endpoint and reports what the server answered.
pub open spec fn login_text(token: Seq<char>) -> Seq<char> {
    LOGIN_BEFORE_TOKEN@ + string_literal(token) + LOGIN_AFTER_TOKEN@
}

pub fn login_script(token: &str) -> (script: String)
    ensures
        script@ == login_text(token@),
{
    concat3(LOGIN_BEFORE_TOKEN, json_string_literal(token).as_str(), LOGIN_AFTER_TOKEN)
}

/// What came of running the login script.
#[derive(Debug)]
pub enum LoginReply {
    /// The script could not be run.
    Unreachable(String),
    /// The script returned something that is no text.
    Unreadable(String),
    /// The text that the script returned is no JSON.
    Malformed(String),
    /// What the script returned: the HTTP status, and the server's own answer as `body`.
    Answer(Json),
}

/// Whether an answer grants the login: the request succeeded, and the server does not say that the
/// login did not.
pub open spec fn login_granted(answer: JsonView) -> bool {
    as_bool(member(answer, "ok"@)) == Some(true) && as_bool(
        member(member(answer, "body"@), "success"@),
    ) != Some(false)
}

/// The server's own words on a refusal.
pub open spec fn refusal_reason(answer: JsonView) -> Seq<char> {
    match member(member(answer, "body"@), "message"@) {
        JsonView::Text(reason) => reason,
        _ => "no reason given"@,
    }
}

/// Why a login failed, or nothing where it did not.
pub open spec fn login_error(reply: LoginReply) -> Option<Seq<char>> {
    match reply {
        LoginReply::Unreachable(e) => Some(
            "could not reach the Zellij web server to log in: "@ + e@,
        ),
        LoginReply::Unreadable(e) => Some(
            "Zellij web login returned something unreadable: "@ + e@,
        ),
        LoginReply::Malformed(e) => Some("Zellij web login returned malformed JSON: "@ + e@),
        LoginReply::Answer(answer) => if login_granted(answer@) {
            None
        } else {
            Some("Zellij web login was refused: "@ + refusal_reason(answer@))
        },
    }
}

/// The member `key`, or `Null`.
fn member_of<'a>(value: &'a Json, key: &str, null: &'a Json) -> (found: &'a Json)
    requires
        null@ == JsonView::Null,
    ensures
        found@ == member(value@, key@),
{
    match value.get(key) {
        Some(found) => found,
        None => null,
    }
}

/// Whether the login went through; if not, why. A refusal carries the server's own message, since
/// an expired or wrong token is something a caller can act on.
pub fn login(reply: LoginReply) -> (outcome: Result<(), String>)
    ensures
        match outcome {
            Ok(()) => login_error(reply) is None,
            Err(message) => login_error(reply) == Some(message@),
        },
{
    match reply {
        LoginReply::Unreachable(e) => Err(
            concat2("could not reach the Zellij web server to log in: ", e.as_str()),
        ),
        LoginReply::Unreadable(e) => Err(
            concat2("Zellij web login returned something unreadable: ", e.as_str()),
        ),
        LoginReply::Malformed(e) => Err(
            concat2("Zellij web login returned malformed JSON: ", e.as_str()),
        ),
        LoginReply::Answer(answer) => {
            let null = Json::Null;
            let ok = member_of(&answer, "ok", &null).as_bool();
            let body = member_of(&answer, "body", &null);
            let success = member_of(body, "success", &null).as_bool();
            if ok == Some(true) && success != Some(false) {
                return Ok(());
            }
            match member_of(body, "message", &null) {
                Json::Text(reason) => Err(
                    concat2("Zellij web login was refused: ", reason.as_str()),
                ),
                _ => Err(concat2("Zellij web login was refused: ", "no reason given")),
            }
        },
    }
}

/// What a JSON string literal stands for, read from behind its opening quote: the text up to the
/// first quote that is not escaped, and what stands behind that quote.
pub open spec fn read_literal(s: Seq<char>) -> Option<(Seq<char>, Seq<char>)>
    decreases s.len(),
{
    if s.len() == 0 {
        None
    } else if s[0] == '"' {
        Some((Seq::empty(), s.drop_first()))
    } else if s[0] == '\\' {
        if s.len() < 2 {
            None
        } else {
            match (escape_meaning(s), escape_len(s)) {
                (Some(c), n) => match read_literal(s.skip(n)) {
                    Some((text, rest)) => Some((seq![c] + text, rest)),
                    None => None,
                },
                _ => None,
            }
        }
    } else {
        match read_literal(s.drop_first()) {
            Some((text, rest)) => Some((seq![s[0]] + text, rest)),
            None => None,
        }
    }
}

/// How many characters the escape in front of `s` takes.
pub open spec fn escape_len(s: Seq<char>) -> int {
    if s[1] == 'u' {
        6
    } else {
        2
    }
}

/// The value of a lower-case hexadecimal digit.
pub open spec fn lower_hex_value(c: char) -> nat {
    if c <= '9' {
        (c as nat - 48) as nat
    } else {
        (c as nat - 87) as nat
    }
}

/// The character that the escape in front of `s` stands for.
pub open spec fn escape_meaning(s: Seq<char>) -> Option<char> {
    if s[1] == 'u' {
        if s.len() >= 6 && s[2] == '0' && s[3] == '0' {
            Some((16 * lower_hex_value(s[4]) + lower_hex_value(s[5])) as char)
        } else {
            None
        }
    } else if s[1] == 'b' {
        Some('\u{8}')
    } else if s[1] == 't' {
        Some('\t')
    } else if s[1] == 'n' {
        Some('\n')
    } else if s[1] == 'f' {
        Some('\u{c}')
    } else if s[1] == 'r' {
        Some('\r')
    } else {
        Some(s[1])
    }
}

/// An escaped character is read as that character.
proof fn lemma_reads_char(c: char, after: Seq<char>, text: Seq<char>, rest: Seq<char>)
    requires
        read_literal(after) == Some((text, rest)),
    ensures
        read_literal(escaped_char(c) + after) == Some((seq![c] + text, rest)),
{
    let s = escaped_char(c) + after;
    assert(s.skip(escaped_char(c).len() as int) =~= after);
    if escaped_char(c).len() == 1 {
        assert(s.drop_first() =~= after);
    } else if escaped_char(c).len() == 2 {
        assert(s[1] == escaped_char(c)[1]);
    } else {
        assert(s[1] == 'u' && s[2] == '0' && s[3] == '0');
        assert(s[4] == lower_hex(c as nat / 16) && s[5] == lower_hex(c as nat % 16));
        assert(lower_hex_value(s[4]) == c as nat / 16);
        assert(lower_hex_value(s[5]) == c as nat % 16);
    }
}

/// No token can break out of its place in the script: read as a string literal, what stands there
/// is the token and nothing but the token, and the script goes on behind it as written.
pub proof fn law_token_stays_inside_its_literal(token: Seq<char>, rest: Seq<char>)
    ensures
        read_literal(escaped(token) + seq!['"'] + rest) == Some((token, rest)),
    decreases token.len(),
{
    let s = escaped(token) + seq!['"'] + rest;
    if token.len() == 0 {
        assert(s.drop_first() =~= rest);
    } else {
        let tail = token.drop_first();
        let after = escaped(tail) + seq!['"'] + rest;
        law_token_stays_inside_its_literal(tail, rest);
        lemma_reads_char(token[0], after, tail, rest);
        assert(s =~= escaped_char(token[0]) + after);
        assert(seq![token[0]] + tail =~= token);
    }
}

/// A login is granted exactly where the request succeeded and the server does not say that the login
/// did not, by the members `ok` of the answer and `success` of its body.
pub proof fn law_login_is_granted_by_the_server(answer: Json)
    ensures
        ({
            let ok = answer@ is Object && answer@->Object_0.contains_key("ok"@)
                && answer@->Object_0["ok"@] == JsonView::Bool(true);
            let body = answer@->Object_0["body"@];
            let denied = answer@ is Object && answer@->Object_0.contains_key("body"@) && body is Object
                && body->Object_0.contains_key("success"@) && body->Object_0["success"@]
                == JsonView::Bool(false);
            login_error(LoginReply::Answer(answer)) is None <==> ok && !denied
        }),
{
}

/// A login that is refused is refused in the server's own words, where it gave some; one that failed
/// before that tells how.
pub proof fn law_refusal_is_in_the_servers_words(answer: Json, error: String)
    ensures
        login_error(LoginReply::Answer(answer)) is Some ==> ({
            let body = answer@->Object_0["body"@];
            let told = answer@ is Object && answer@->Object_0.contains_key("body"@) && body is Object
                && body->Object_0.contains_key("message"@) && body->Object_0["message"@] is Text;
            login_error(LoginReply::Answer(answer))->0 == "Zellij web login was refused: "@ + if told {
                body->Object_0["message"@]->Text_0
            } else {
                "no reason given"@
            }
        }),
        login_error(LoginReply::Unreachable(error)) == Some(
            "could not reach the Zellij web server to log in: "@ + error@,
        ),
        login_error(LoginReply::Unreadable(error)) == Some(
            "Zellij web login returned something unreadable: "@ + error@,
        ),
        login_error(LoginReply::Malformed(error)) == Some(
            "Zellij web login returned malformed JSON: "@ + error@,
        ),
{
}

/// The script posts the token, and nothing but the token, to the login endpoint, does not ask to be
/// remembered, and hands back what the server answered.
pub proof fn law_script_posts_the_token(token: Seq<char>)
    ensures
        login_text(token) == "(async () => {
            const response = await fetch('/command/login', {
                method: 'POST',
                headers: { 'content-type': 'application/json' },
                body: JSON.stringify({ auth_token: "@ + seq!['"'] + escaped(token) + seq!['"'] + ", remember_me: false }),
            });
            const body = await response.json().catch(() => ({}));
            return JSON.stringify({ ok: response.ok, status: response.status, body });
        })()"@,
{
    assert(login_text(token) =~= LOGIN_BEFORE_TOKEN@ + seq!['"'] + escaped(token) + seq!['"']
        + LOGIN_AFTER_TOKEN@);
}

} // verus!
