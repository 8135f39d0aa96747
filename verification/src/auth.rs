//! The tokens that open a node's authenticated port.

use vstd::prelude::*;

use crate::json::{json_tree, members_of, Json, JsonView};
use crate::text::{
    begins_with, has_prefix, hex_digit, is_white, law_trim_removes_space, trim, trimmed,
};

verus! {

/// An error of jsonwebtoken.
#[verifier::external_type_specification]
#[verifier::external_body]
pub struct ExTokenError(jsonwebtoken::errors::Error);

/// An error of hex.
#[verifier::external_type_specification]
#[verifier::external_body]
pub struct ExHexError(hex::FromHexError);

/// The token that `jsonwebtoken::encode` makes of claims, signed by HMAC with SHA-256 under a
/// secret.
pub uninterp spec fn signed_token(claims: JsonView, secret: Seq<u8>) -> Seq<char>;

/// What `jsonwebtoken::decode` finds in a token under a secret, if it lets no algorithm but HS256
/// pass, asks for no claim and heeds no time: the algorithm that the header names, and the claims.
/// `None` where it refuses the token.
pub uninterp spec fn opened_token(token: Seq<char>, secret: Seq<u8>) -> Option<
    (Seq<char>, JsonView),
>;

/// Whether claims hold a time of issue and nothing else.
pub open spec fn only_issued(claims: JsonView) -> bool {
    exists|iat: i64| claims == #[trigger] (Claims { iat }).object()
}

/// `jsonwebtoken::encode` with a header for HS256 and a key from `EncodingKey::from_secret`: such
/// a key fits the algorithm, so it gives a token, which depends on the claims and the secret alone.
/// `jsonwebtoken::decode` opens it under the same secret and finds HS256 in its header, and the
/// claims in it. This is said of claims that hold a time of issue and nothing else; of other claims
/// it is left unsaid.
#[verifier::external_body]
fn encode_hs256(claims: &serde_json::Value, secret: &[u8]) -> (r: Result<
    String,
    jsonwebtoken::errors::Error,
>)
    ensures
        r is Ok,
        r->Ok_0@ == signed_token(json_tree(*claims), secret@),
        only_issued(json_tree(*claims)) ==> opened_token(r->Ok_0@, secret@) == Some(
            ("HS256"@, json_tree(*claims)),
        ),
{
    jsonwebtoken::encode(
        &jsonwebtoken::Header::new(jsonwebtoken::Algorithm::HS256),
        claims,
        &jsonwebtoken::EncodingKey::from_secret(secret),
    )
}

/// `jsonwebtoken::decode` with a key from `DecodingKey::from_secret` and a validation for HS256 that
/// asks for no claim and heeds no time: what it finds in a token depends on the token and the secret
/// alone. The algorithm is given by its name.
#[verifier::external_body]
fn decode_hs256(token: &str, secret: &[u8]) -> (r: Result<
    (String, serde_json::Value),
    jsonwebtoken::errors::Error,
>)
    ensures
        match r {
            Ok(found) => opened_token(token@, secret@) == Some((found.0@, json_tree(found.1))),
            Err(_) => opened_token(token@, secret@) is None,
        },
{
    let mut validation = jsonwebtoken::Validation::new(jsonwebtoken::Algorithm::HS256);
    validation.required_spec_claims.clear();
    validation.validate_exp = false;
    match jsonwebtoken::decode(token, &jsonwebtoken::DecodingKey::from_secret(secret), &validation) {
        Ok(data) => Ok((format!("{:?}", data.header.alg), data.claims)),
        Err(e) => Err(e),
    }
}

/// `chrono::Utc::now().timestamp()`: the seconds since the Unix epoch on the machine's clock. All
/// that can be said of them is that the epoch is past.
#[verifier::external_body]
fn unix_time() -> (r: i64)
    ensures
        r >= 0,
{
    chrono::Utc::now().timestamp()
}

/// Whether a reading of the machine's clock came to a time: only a call of `unix_time` shows it.
pub closed spec fn clock_read(time: i64) -> bool {
    call_ensures(unix_time, (), time)
}

/// The bytes that pairs of hexadecimal digits stand for.
pub open spec fn hex_bytes(text: Seq<char>) -> Option<Seq<u8>> {
    if text.len() % 2 == 0 && (forall|i: int|
        0 <= i < text.len() ==> hex_digit(#[trigger] text[i]) is Some) {
        Some(
            Seq::new(
                text.len() / 2,
                |i: int|
                    (hex_digit(text[2 * i])->0 * 16 + hex_digit(text[2 * i + 1])->0) as u8,
            ),
        )
    } else {
        None
    }
}

/// `hex::decode`: the bytes of a text that is made of pairs of hexadecimal digits, in either case,
/// and an error for every other text.
#[verifier::external_body]
fn decode_hex(text: &str) -> (r: Result<Vec<u8>, hex::FromHexError>)
    ensures
        match r {
            Ok(bytes) => hex_bytes(text@) == Some(bytes@),
            Err(_) => hex_bytes(text@) is None,
        },
{
    hex::decode(text)
}

/// The claims of a token.
#[derive(Debug, PartialEq, Eq, Structural)]
pub struct Claims {
    /// issued-at claim. Represented as seconds passed since UNIX_EPOCH.
    pub iat: i64,
}

impl Claims {
    /// The claims as the object that a token carries.
    pub open spec fn object(self) -> JsonView {
        JsonView::Object(map!["iat"@ => JsonView::Integer(self.iat as int)])
    }

    /// The claims as the object that a token carries.
    pub fn to_json(&self) -> (r: Json)
        ensures
            r@ == self.object(),
    {
        let members: Vec<(&str, Json)> = vec![("iat", Json::signed(self.iat))];
        proof {
            reveal_with_fuel(members_of, 2);
        }
        Json::object(members)
    }
}

/// The secret that tokens are signed with.
#[derive(Debug)]
pub struct JwtKey {
    /// The bytes of the secret.
    pub secret: Vec<u8>,
}

/// What a token holds.
#[derive(Debug)]
pub struct OpenToken {
    /// The algorithm that its header names.
    pub algorithm: String,
    /// Its claims.
    pub claims: Json,
}

/// The refusal of a secret that is not written in hexadecimal digits.
#[derive(Debug, PartialEq, Eq, Structural)]
pub struct BadSecret {}

/// The hexadecimal digits in a file that holds a secret: white space around them and a leading
/// `0x` do not count.
pub open spec fn secret_digits(text: Seq<char>) -> Seq<char> {
    if begins_with(trimmed(text), "0x"@) {
        trimmed(text).skip(2)
    } else {
        trimmed(text)
    }
}

impl Clone for JwtKey {
    fn clone(&self) -> (r: Self)
        ensures
            r.secret@ == self.secret@,
    {
        let secret: Vec<u8> = self.secret.clone();
        assert(secret@ =~= self.secret@);
        JwtKey { secret }
    }
}

impl JwtKey {
    /// The key whose secret a file holds.
    pub fn from_file_text(text: &str) -> (r: Result<JwtKey, BadSecret>)
        ensures
            match r {
                Ok(key) => hex_bytes(secret_digits(text@)) == Some(key.secret@),
                Err(_) => hex_bytes(secret_digits(text@)) is None,
            },
    {
        let whole = trim(text);
        proof {
            reveal_strlit("0x");
        }
        let digits = if has_prefix(whole, "0x") {
            whole.substring_char(2, whole.unicode_len())
        } else {
            whole
        };
        match decode_hex(digits) {
            Ok(secret) => Ok(JwtKey { secret }),
            Err(_) => Err(BadSecret {  }),
        }
    }

    /// The token that carries some claims. Opened with the same key, it names HS256 and holds these
    /// claims alone.
    pub fn sign(&self, claims: &Claims) -> (r: Result<String, jsonwebtoken::errors::Error>)
        ensures
            r is Ok,
            r->Ok_0@ == signed_token(claims.object(), self.secret@),
            opened_token(r->Ok_0@, self.secret@) == Some(("HS256"@, claims.object())),
    {
        let object = claims.to_json();
        assert(only_issued(object@)) by {
            assert(object@ == (Claims { iat: claims.iat }).object());
        }
        encode_hs256(&object.value, self.secret.as_slice())
    }

    /// What a token holds, if it was signed by HS256 with the key.
    pub fn open(&self, token: &str) -> (r: Option<OpenToken>)
        ensures
            match r {
                Some(found) => opened_token(token@, self.secret@) == Some(
                    (found.algorithm@, found.claims@),
                ),
                None => opened_token(token@, self.secret@) is None,
            },
    {
        match decode_hs256(token, self.secret.as_slice()) {
            Ok((algorithm, claims)) => Some(OpenToken { algorithm, claims: Json { value: claims } }),
            Err(_) => None,
        }
    }
}

/// Whether a token was issued with a secret at a time that the clock came to: it is the token of
/// that time alone, and opened with the secret, it names HS256 and holds that time alone.
pub open spec fn is_issued(token: Seq<char>, secret: Seq<u8>) -> bool {
    exists|iat: i64|
        {
            &&& clock_read(iat)
            &&& iat >= 0
            &&& token == signed_token((#[trigger] (Claims { iat }).object()), secret)
            &&& opened_token(token, secret) == Some(("HS256"@, (Claims { iat }).object()))
        }
}

/// Whether the value of an `Authorization` header carries a token that was issued with a secret at a
/// time that the clock came to.
pub open spec fn carries_issued(header: Seq<char>, secret: Seq<u8>) -> bool {
    exists|token: Seq<char>| header == "Bearer "@ + token && #[trigger] is_issued(token, secret)
}

/// Makes a token that was issued now.
pub fn make_jwt(jwt_key: &JwtKey) -> (r: Result<String, jsonwebtoken::errors::Error>)
    ensures
        r is Ok,
        is_issued(r->Ok_0@, jwt_key.secret@),
{
    let claims = Claims { iat: unix_time() };
    jwt_key.sign(&claims)
}

/// The value of an `Authorization` header that carries a token.
pub fn bearer(token: &str) -> (r: String)
    ensures
        r@ == "Bearer "@ + token@,
{
    "Bearer ".to_owned().concat(token)
}

/// The value of an `Authorization` header with a token that was issued now.
pub fn fresh_bearer(jwt_key: &JwtKey) -> (r: String)
    ensures
        carries_issued(r@, jwt_key.secret@),
{
    let token = make_jwt(jwt_key).unwrap();
    assert(is_issued(token@, jwt_key.secret@));
    bearer(token.as_str())
}

/// A made token is dated by the machine's clock: opened with the key that it was made with, it names
/// HS256, and its one claim is a time that `unix_time` returned.
proof fn law_token_is_dated_by_the_clock(
    jwt_key: &JwtKey,
    made: Result<String, jsonwebtoken::errors::Error>,
)
    requires
        call_ensures(make_jwt, (jwt_key,), made),
    ensures
        made is Ok,
        exists|iat: i64| #[trigger]
            call_ensures(unix_time, (), iat) && opened_token(made->Ok_0@, jwt_key.secret@) == Some(
                ("HS256"@, JsonView::Object(map!["iat"@ => JsonView::Integer(iat as int)])),
            ),
{
    let iat = choose|iat: i64|
        {
            &&& clock_read(iat)
            &&& iat >= 0
            &&& made->Ok_0@ == signed_token((#[trigger] (Claims { iat }).object()), jwt_key.secret@)
            &&& opened_token(made->Ok_0@, jwt_key.secret@) == Some(
                ("HS256"@, (Claims { iat }).object()),
            )
        };
    assert(call_ensures(unix_time, (), iat));
}

/// White space around the digits of a secret and a leading `0x` make no difference.
pub proof fn law_secret_spellings(before: Seq<char>, digits: Seq<char>, behind: Seq<char>)
    requires
        forall|i: int| 0 <= i < before.len() ==> is_white(#[trigger] before[i]),
        forall|i: int| 0 <= i < behind.len() ==> is_white(#[trigger] behind[i]),
        forall|i: int| 0 <= i < digits.len() ==> hex_digit(#[trigger] digits[i]) is Some,
    ensures
        secret_digits(before + digits + behind) == digits,
        secret_digits(before + ("0x"@ + digits) + behind) == digits,
{
    reveal_strlit("0x");
    let marked = "0x"@ + digits;
    if digits.len() > 0 {
        assert(hex_digit(digits[0]) is Some && hex_digit(digits[digits.len() - 1]) is Some);
        assert(marked.last() == digits.last());
    } else {
        assert(marked.last() == 'x');
    }
    assert(marked[0] == '0');
    law_trim_removes_space(before, digits, behind);
    law_trim_removes_space(before, marked, behind);
    assert(marked.take(2) =~= "0x"@);
    assert(marked.skip(2) =~= digits);
    if begins_with(digits, "0x"@) {
        assert(digits.take(2)[1] == 'x');
        assert(hex_digit(digits[1]) is Some);
    }
}

} // verus!
