//! Encodings the service relies on: URL-safe base64 without padding, lower-case
//! hex, percent-decoding of path segments, and the JSON of the token claims.

use vstd::prelude::*;
use vstd::utf8::encode_utf8;

use crate::text::decimal;

verus! {

// ---------------------------------------------------------------------------
// base64 (URL-safe alphabet, no padding)
// ---------------------------------------------------------------------------

/// The error type of base64 decoding (`base64::DecodeError`), carried opaquely.
#[verifier::external_type_specification]
#[verifier::external_body]
pub struct ExDecodeError(base64::DecodeError);

/// What `URL_SAFE_NO_PAD.encode` returns for the given bytes.
pub uninterp spec fn base64url_encoding(bytes: Seq<u8>) -> Seq<char>;

/// What `URL_SAFE_NO_PAD.decode` returns for the given text: `None` where it
/// reports an error.
pub uninterp spec fn base64url_decoding(text: Seq<char>) -> Option<Seq<u8>>;

/// A character of the URL-safe base64 alphabet: letters, digits, `-` and `_`.
pub open spec fn is_base64url_char(c: char) -> bool {
    ('A' <= c <= 'Z') || ('a' <= c <= 'z') || ('0' <= c <= '9') || c == '-' || c == '_'
}

/// `base64::Engine::encode` with the `URL_SAFE_NO_PAD` engine. Its result is
/// named by `base64url_encoding`; the contract adds that every character of the
/// output belongs to the URL-safe alphabet (no padding is written).
#[verifier::external_body]
pub(crate) fn base64url_encode(bytes: &[u8]) -> (out: String)
    ensures
        out@ == base64url_encoding(bytes@),
        forall|i: int| 0 <= i < out@.len() ==> is_base64url_char(#[trigger] out@[i]),
{
    base64::Engine::encode(&base64::engine::general_purpose::URL_SAFE_NO_PAD, bytes)
}

/// `base64::Engine::decode` with the `URL_SAFE_NO_PAD` engine, on the bytes of
/// `text`. Its outcome is named by `base64url_decoding`; the contract adds that
/// decoding the engine's own encoding of some bytes gives those bytes back.
#[verifier::external_body]
pub(crate) fn base64url_decode(text: &str) -> (out: Result<Vec<u8>, base64::DecodeError>)
    ensures
        out is Ok <==> base64url_decoding(text@) is Some,
        out matches Ok(v) ==> base64url_decoding(text@) == Some(v@),
        out matches Ok(v) ==> forall|b: Seq<u8>| #[trigger] base64url_encoding(b) == text@ ==> v@ == b,
        (exists|b: Seq<u8>| #[trigger] base64url_encoding(b) == text@) ==> out is Ok,
{
    base64::Engine::decode(&base64::engine::general_purpose::URL_SAFE_NO_PAD, text)
}

// ---------------------------------------------------------------------------
// hex
// ---------------------------------------------------------------------------

/// The lower-case hex digit for a nibble `n` (`0 <= n < 16`).
pub open spec fn hex_digit(n: int) -> char {
    if n < 10 {
        (n + 48) as char
    } else {
        (n + 87) as char
    }
}

/// Two lower-case hex digits per byte, high nibble first.
pub open spec fn hex_lower(bytes: Seq<u8>) -> Seq<char>
    decreases bytes.len(),
{
    if bytes.len() == 0 {
        Seq::empty()
    } else {
        hex_lower(bytes.drop_last()) + seq![
            hex_digit((bytes.last() / 16) as int),
            hex_digit((bytes.last() % 16) as int),
        ]
    }
}

/// `hex::encode`: two lower-case hex digits per byte, high nibble first.
#[verifier::external_body]
pub(crate) fn hex_encode(bytes: &[u8]) -> (out: String)
    ensures
        out@ == hex_lower(bytes@),
{
    hex::encode(bytes)
}

// ---------------------------------------------------------------------------
// percent-decoding
// ---------------------------------------------------------------------------

/// What `percent_decode_str(s).decode_utf8_lossy()` yields for `s`.
pub uninterp spec fn percent_decoding(text: Seq<char>) -> Seq<char>;

/// `percent_encoding::percent_decode_str`, then `decode_utf8_lossy` and
/// `into_owned`. Its result is named by `percent_decoding`; the contract adds that
/// text without a `%` comes back unchanged.
#[verifier::external_body]
pub(crate) fn percent_decode(text: &str) -> (out: String)
    ensures
        out@ == percent_decoding(text@),
        !text@.contains('%') ==> out@ == text@,
{
    percent_encoding::percent_decode_str(text).decode_utf8_lossy().into_owned()
}

// ---------------------------------------------------------------------------
// JSON of the token claims
// ---------------------------------------------------------------------------

/// The JSON string literal (quoted and escaped) that `serde_json` writes for `s`.
pub uninterp spec fn json_string_literal(s: Seq<char>) -> Seq<char>;

/// `serde_json::to_string` on a string slice. Its result is named by
/// `json_string_literal`. Serialising a `str` cannot fail; the error arm only
/// converts the type.
#[verifier::external_body]
pub(crate) fn json_quote(s: &str) -> (out: String)
    ensures
        out@ == json_string_literal(s@),
{
    match serde_json::to_string(s) {
        Ok(t) => t,
        Err(_) => String::new(),
    }
}

/// The compact JSON object `{"exp":<exp>,"iat":<iat>,"sub":<sub>}`, keys in the
/// sorted order in which `serde_json` writes an object.
pub open spec fn claims_json(exp: u64, iat: u64, sub: Seq<char>) -> Seq<char> {
    "{\"exp\":"@ + decimal(exp as nat) + ",\"iat\":"@ + decimal(iat as nat) + ",\"sub\":"@
        + json_string_literal(sub) + "}"@
}

/// The claims of a token payload that verification reads.
pub struct JwtClaims {
    /// `payload["exp"]` when it is an unsigned integer.
    pub exp: Option<u64>,
    /// `payload["sub"]` when it is a string.
    pub sub: Option<String>,
}

impl View for JwtClaims {
    type V = (Option<u64>, Option<Seq<char>>);

    open spec fn view(&self) -> (Option<u64>, Option<Seq<char>>) {
        (self.exp, match self.sub {
            Some(s) => Some(s@),
            None => None,
        })
    }
}

/// What parsing `bytes` as a JSON value and reading `["exp"].as_u64()` and
/// `["sub"].as_str()` gives: `None` where the bytes are no JSON.
pub uninterp spec fn parsed_claims(bytes: Seq<u8>) -> Option<(Option<u64>, Option<Seq<char>>)>;

/// `serde_json::from_slice::<serde_json::Value>`, then the fields `exp` (as
/// `u64`) and `sub` (as a string). Its outcome is named by `parsed_claims`; the
/// contract adds that an object written as `claims_json` reads back its `exp`
/// and its `sub`.
#[verifier::external_body]
pub(crate) fn read_claims(bytes: &[u8]) -> (out: Option<JwtClaims>)
    ensures
        out matches Some(c) ==> parsed_claims(bytes@) == Some(c@),
        out is None ==> parsed_claims(bytes@) is None,
        out matches Some(c) ==> forall|exp: u64, iat: u64, sub: Seq<char>|
            #[trigger] encode_utf8(claims_json(exp, iat, sub)) == bytes@ ==> c@ == (Some(exp), Some(sub)),
        (exists|exp: u64, iat: u64, sub: Seq<char>|
            #[trigger] encode_utf8(claims_json(exp, iat, sub)) == bytes@) ==> out is Some,
{
    match serde_json::from_slice::<serde_json::Value>(bytes) {
        Ok(v) => Some(JwtClaims { exp: v["exp"].as_u64(), sub: v["sub"].as_str().map(String::from) }),
        Err(_) => None,
    }
}

} // verus!
