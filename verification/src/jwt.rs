//! Admin tokens: HS256-signed JSON Web Tokens that carry the user name and
//! expire 24 hours after they were issued.

use vstd::prelude::*;
use vstd::utf8::encode_utf8;

use crate::codec::{
    base64url_decode, base64url_decoding, base64url_encode, base64url_encoding, claims_json,
    is_base64url_char, json_quote, parsed_claims, read_claims,
};
use crate::crypto::{hmac_sha256, hmac_sha256_tag, hmac_sha256_verify};
use crate::text::{
    chars_of, find_char_from, index_of_char, lemma_index_of_char, lemma_index_of_char_at,
    opt_chars, push_decimal,
};

verus! {

/// How long a token stays valid after it was issued, in seconds (24 hours).
pub const TOKEN_LIFETIME_SECS: u64 = 86400;

/// The JOSE header of every token.
pub open spec fn header_json() -> Seq<char> {
    "{\"alg\":\"HS256\",\"typ\":\"JWT\"}"@
}

/// The first segment of every token: the encoded header.
pub open spec fn header_segment() -> Seq<char> {
    base64url_encoding(encode_utf8(header_json()))
}

/// The second segment of a token issued to `user` at `now`: the encoded claims
/// `exp = now + 24h`, `iat = now` and `sub = user`.
pub open spec fn payload_segment(user: Seq<char>, now: u64) -> Seq<char> {
    base64url_encoding(
        encode_utf8(claims_json((now + TOKEN_LIFETIME_SECS) as u64, now, user)),
    )
}

/// The text that the signature covers: header and payload segments joined by a dot.
pub open spec fn signing_input(header: Seq<char>, payload: Seq<char>) -> Seq<char> {
    header + "."@ + payload
}

/// The third segment: the encoded HMAC-SHA256 tag of `input` under `secret`.
pub open spec fn signature_segment(secret: Seq<char>, input: Seq<char>) -> Seq<char> {
    base64url_encoding(hmac_sha256_tag(encode_utf8(secret), encode_utf8(input)))
}

/// The three segments of the token issued to `user` under `secret` at `now`.
pub open spec fn minted_parts(user: Seq<char>, secret: Seq<char>, now: u64) -> (
    Seq<char>,
    Seq<char>,
    Seq<char>,
) {
    let input = signing_input(header_segment(), payload_segment(user, now));
    (header_segment(), payload_segment(user, now), signature_segment(secret, input))
}

/// The token issued to `user` under `secret` at `now`.
pub open spec fn minted_token(user: Seq<char>, secret: Seq<char>, now: u64) -> Seq<char> {
    let parts = minted_parts(user, secret, now);
    parts.0 + "."@ + parts.1 + "."@ + parts.2
}

/// A token cut at its first two dots: the text before the first, the text
/// between the two, and all that follows the second (`splitn(3, '.')`).
pub open spec fn jwt_split(token: Seq<char>) -> Option<(Seq<char>, Seq<char>, Seq<char>)> {
    match index_of_char(token, '.') {
        None => None,
        Some(i) => {
            let rest = token.skip(i + 1);
            match index_of_char(rest, '.') {
                None => None,
                Some(j) => Some((token.take(i), rest.take(j), rest.skip(j + 1))),
            }
        },
    }
}

/// The user a token names when it is accepted at time `now`: the signature
/// segment must decode to the tag of `header.payload` under `secret`, the payload
/// must decode to JSON with an unsigned `exp` no earlier than `now`, and its `sub`
/// must be a string.
pub open spec fn jwt_subject(token: Seq<char>, secret: Seq<char>, now: u64) -> Option<Seq<char>> {
    match jwt_split(token) {
        None => None,
        Some((header, payload, signature)) => match base64url_decoding(signature) {
            None => None,
            Some(tag) => if tag != hmac_sha256_tag(
                encode_utf8(secret),
                encode_utf8(signing_input(header, payload)),
            ) {
                None
            } else {
                match base64url_decoding(payload) {
                    None => None,
                    Some(claims) => match parsed_claims(claims) {
                        None => None,
                        Some((exp, sub)) => match exp {
                            None => None,
                            Some(e) => if now > e {
                                None
                            } else {
                                sub
                            },
                        },
                    },
                }
            },
        },
    }
}

proof fn lemma_no_dot(s: Seq<char>)
    requires
        forall|i: int| 0 <= i < s.len() ==> is_base64url_char(#[trigger] s[i]),
    ensures
        !s.contains('.'),
{
    if s.contains('.') {
        let i = choose|i: int| 0 <= i < s.len() && s[i] == '.';
        assert(is_base64url_char(s[i]));
    }
}

/// Where the first dot stands in `a + "." + b` when `a` holds none.
proof fn lemma_split_at_dot(a: Seq<char>, b: Seq<char>)
    requires
        !a.contains('.'),
    ensures
        index_of_char(a + "."@ + b, '.') == Some(a.len() as int),
        (a + "."@ + b).take(a.len() as int) == a,
        (a + "."@ + b).skip(a.len() as int + 1) == b,
{
    reveal_strlit(".");
    let t = a + "."@ + b;
    assert(t[a.len() as int] == '.');
    assert forall|k: int| 0 <= k < a.len() implies t[k] != '.' by {
        assert(t[k] == a[k]);
    }
    lemma_index_of_char_at(t, '.', a.len() as int);
    assert(t.take(a.len() as int) =~= a);
    assert(t.skip(a.len() as int + 1) =~= b);
}

/// Issues a token for `username`, signed with `secret`, issued at `now` (seconds
/// since the epoch) and expiring 24 hours later.
pub fn create_jwt(username: &str, secret: &str, now: u64) -> (token: String)
    requires
        now <= u64::MAX - TOKEN_LIFETIME_SECS,
    ensures
        token@ == minted_token(username@, secret@, now),
        jwt_split(token@) == Some(minted_parts(username@, secret@, now)),
{
    let exp = now + TOKEN_LIFETIME_SECS;
    let header = base64url_encode("{\"alg\":\"HS256\",\"typ\":\"JWT\"}".as_bytes());

    let mut claims = "{\"exp\":".to_owned();
    push_decimal(&mut claims, exp);
    claims.append(",\"iat\":");
    push_decimal(&mut claims, now);
    claims.append(",\"sub\":");
    let quoted = json_quote(username);
    claims.append(quoted.as_str());
    claims.append("}");
    assert(claims@ == claims_json(exp, now, username@));
    let payload = base64url_encode(claims.as_str().as_bytes());

    let mut input = header.clone();
    input.append(".");
    input.append(payload.as_str());
    let tag = hmac_sha256(secret.as_bytes(), input.as_str().as_bytes());
    let signature = base64url_encode(tag.as_slice());

    let mut token = input;
    token.append(".");
    token.append(signature.as_str());
    proof {
        lemma_no_dot(header@);
        lemma_no_dot(payload@);
        lemma_split_at_dot(header@, payload@ + "."@ + signature@);
        assert(token@ =~= header@ + "."@ + (payload@ + "."@ + signature@));
        lemma_split_at_dot(payload@, signature@);
    }
    token
}

/// The user named by `token` if it is accepted under `secret` at time `now`
/// (seconds since the epoch); `None` if it is malformed, its signature does not
/// match, its payload is unreadable, or it has expired.
pub fn verify_jwt(token: &str, secret: &str, now: u64) -> (user: Option<String>)
    ensures
        opt_chars(user) == jwt_subject(token@, secret@, now),
        forall|u: Seq<char>, n: u64|
            jwt_split(token@) == Some(#[trigger] minted_parts(u, secret@, n)) && n
                <= u64::MAX - TOKEN_LIFETIME_SECS ==> opt_chars(user) == (if now <= n
                + TOKEN_LIFETIME_SECS {
                Some(u)
            } else {
                None
            }),
{
    let cs = chars_of(token);
    let n = cs.len();
    assert(cs@.skip(0) =~= token@);
    let first = match find_char_from(&cs, 0, '.') {
        Some(i) => i,
        None => return None,
    };
    proof {
        lemma_index_of_char(token@, '.');
    }
    let ghost rest = token@.skip(first + 1);
    assert(cs@.skip(first + 1) =~= rest);
    let second = match find_char_from(&cs, first + 1, '.') {
        Some(j) => j,
        None => return None,
    };
    proof {
        lemma_index_of_char(rest, '.');
        assert(second < n);
    }
    let header_b64 = token.substring_char(0, first);
    let payload_b64 = token.substring_char(first + 1, second);
    let signature_b64 = token.substring_char(second + 1, n);
    assert(header_b64@ =~= token@.take(first as int));
    assert(payload_b64@ =~= rest.take(second - first - 1));
    assert(signature_b64@ =~= rest.skip(second - first));
    assert(jwt_split(token@) == Some((header_b64@, payload_b64@, signature_b64@)));

    let signature = match base64url_decode(signature_b64) {
        Ok(v) => v,
        Err(_) => return None,
    };
    let mut input = header_b64.to_owned();
    input.append(".");
    input.append(payload_b64);
    if !hmac_sha256_verify(secret.as_bytes(), input.as_str().as_bytes(), signature.as_slice()) {
        return None;
    }
    let payload = match base64url_decode(payload_b64) {
        Ok(v) => v,
        Err(_) => return None,
    };
    let claims = match read_claims(payload.as_slice()) {
        Some(c) => c,
        None => return None,
    };
    let exp = match claims.exp {
        Some(e) => e,
        None => return None,
    };
    if now > exp {
        return None;
    }
    claims.sub
}

} // verus!
