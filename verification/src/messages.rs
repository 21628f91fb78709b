//! Validation of a new guestbook message before it is stored (unapproved).

use vstd::prelude::*;
use vstd::utf8::encode_utf8;

use crate::api::ApiError;
use crate::auth::opt_str;
use crate::text::{lemma_trim_shape, opt_chars, trim, trim_spec, unicode_white_space};

verus! {

/// The most bytes (UTF-8) a name may have.
pub const MAX_NAME_BYTES: usize = 100;

/// The most bytes (UTF-8) a message may have.
pub const MAX_CONTENT_BYTES: usize = 2000;

/// The most bytes (UTF-8) an e-mail address may have.
pub const MAX_EMAIL_BYTES: usize = 200;

/// The number of bytes of the UTF-8 encoding of `s` (what `str::len` counts).
pub open spec fn utf8_len(s: Seq<char>) -> nat {
    encode_utf8(s).len()
}

/// An optional text, with the empty text taken as absent.
pub open spec fn non_empty(o: Option<Seq<char>>) -> Option<Seq<char>> {
    match o {
        Some(s) => if s.len() > 0 {
            Some(s)
        } else {
            None
        },
        None => None,
    }
}

/// The fields of a message as they are stored.
pub struct NewMessageRecord {
    pub name: String,
    pub email: Option<String>,
    pub content: String,
    pub attachment_key: Option<String>,
}

impl View for NewMessageRecord {
    type V = (Seq<char>, Option<Seq<char>>, Seq<char>, Option<Seq<char>>);

    open spec fn view(&self) -> (Seq<char>, Option<Seq<char>>, Seq<char>, Option<Seq<char>>) {
        (self.name@, opt_chars(self.email), self.content@, opt_chars(self.attachment_key))
    }
}

/// What submitting a message gives: the trimmed name and content, the e-mail and
/// attachment key with empty ones dropped; or the first error, in this order: no
/// name, name over 100 bytes, no content, content over 2000 bytes, e-mail over 200
/// bytes (the e-mail is not trimmed, and its length is checked even when empty).
pub open spec fn new_message_outcome(
    name: Seq<char>,
    email: Option<Seq<char>>,
    content: Seq<char>,
    attachment_key: Option<Seq<char>>,
) -> Result<(Seq<char>, Option<Seq<char>>, Seq<char>, Option<Seq<char>>), ApiError> {
    let name = trim_spec(name);
    let content = trim_spec(content);
    if name.len() == 0 {
        Err(ApiError::NameRequired)
    } else if utf8_len(name) > MAX_NAME_BYTES {
        Err(ApiError::NameTooLong)
    } else if content.len() == 0 {
        Err(ApiError::ContentRequired)
    } else if utf8_len(content) > MAX_CONTENT_BYTES {
        Err(ApiError::ContentTooLong)
    } else if email matches Some(e) && utf8_len(e) > MAX_EMAIL_BYTES {
        Err(ApiError::EmailTooLong)
    } else {
        Ok((name, non_empty(email), content, non_empty(attachment_key)))
    }
}

/// A valid message keeps its optional fields as given: a non-empty e-mail or
/// attachment key is stored unchanged, and one is dropped only when it is absent
/// or empty. Whether a message is valid does not depend on its attachment key.
pub proof fn lemma_optional_fields_kept(
    name: Seq<char>,
    email: Option<Seq<char>>,
    content: Seq<char>,
    attachment_key: Option<Seq<char>>,
    other_attachment_key: Option<Seq<char>>,
)
    ensures
        new_message_outcome(name, email, content, attachment_key) matches Ok(r) ==> {
            &&& (attachment_key matches Some(k) ==> (k.len() > 0 ==> r.3 == Some(k)))
            &&& (r.3 is None ==> (attachment_key is None || attachment_key == Some(
                Seq::<char>::empty(),
            )))
            &&& (email matches Some(e) ==> (e.len() > 0 ==> r.1 == Some(e)))
            &&& (r.1 is None ==> (email is None || email == Some(Seq::<char>::empty())))
        },
        new_message_outcome(name, email, content, attachment_key) is Ok <==> new_message_outcome(
            name,
            email,
            content,
            other_attachment_key,
        ) is Ok,
{
    if let Some(k) = attachment_key {
        if k.len() == 0 {
            assert(k =~= Seq::<char>::empty());
        }
    }
    if let Some(e) = email {
        if e.len() == 0 {
            assert(e =~= Seq::<char>::empty());
        }
    }
}

/// Validates a submitted message and gives the fields to store.
pub fn validate_new_message(
    name: &str,
    email: Option<&str>,
    content: &str,
    attachment_key: Option<&str>,
) -> (out: Result<NewMessageRecord, ApiError>)
    ensures
        (match out {
            Ok(r) => Ok(r@),
            Err(e) => Err(e),
        }) == new_message_outcome(name@, opt_str(email), content@, opt_str(attachment_key)),
        out matches Ok(r) ==> {
            &&& 0 < r.name@.len()
            &&& utf8_len(r.name@) <= MAX_NAME_BYTES
            &&& !unicode_white_space(r.name@[0])
            &&& !unicode_white_space(r.name@.last())
            &&& 0 < r.content@.len()
            &&& utf8_len(r.content@) <= MAX_CONTENT_BYTES
            &&& !unicode_white_space(r.content@[0])
            &&& !unicode_white_space(r.content@.last())
            &&& (r.email matches Some(e) ==> 0 < e@.len() && utf8_len(e@) <= MAX_EMAIL_BYTES)
        },
{
    proof {
        lemma_trim_shape(name@);
        lemma_trim_shape(content@);
    }
    let name = trim(name);
    let content = trim(content);
    if name.as_str().is_empty() {
        return Err(ApiError::NameRequired);
    }
    if name.as_str().as_bytes().len() > MAX_NAME_BYTES {
        return Err(ApiError::NameTooLong);
    }
    if content.as_str().is_empty() {
        return Err(ApiError::ContentRequired);
    }
    if content.as_str().as_bytes().len() > MAX_CONTENT_BYTES {
        return Err(ApiError::ContentTooLong);
    }
    if let Some(e) = email {
        if e.as_bytes().len() > MAX_EMAIL_BYTES {
            return Err(ApiError::EmailTooLong);
        }
    }
    let email = match email {
        Some(e) => if e.is_empty() {
            None
        } else {
            Some(e.to_owned())
        },
        None => None,
    };
    let attachment_key = match attachment_key {
        Some(k) => if k.is_empty() {
            None
        } else {
            Some(k.to_owned())
        },
        None => None,
    };
    Ok(NewMessageRecord { name, email, content, attachment_key })
}

} // verus!
