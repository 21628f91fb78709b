//! Attachments: upload limits, storage keys derived from the file name, and the
//! checks and headers for downloads.

use vstd::prelude::*;

use crate::api::ApiError;
use crate::codec::{hex_encode, hex_lower};
use crate::crypto::random_bytes;
use crate::text::{
    char_is_alphanumeric, chars_of, decimal, is_ascii_letter_or_digit, lemma_decimal_digits,
    push_char, push_decimal,
    unicode_alphanumeric,
};

verus! {

/// The largest attachment accepted, in bytes (25 MiB).
pub const MAX_ATTACHMENT_BYTES: usize = 26214400;

/// What an upload of a file of `file_size` bytes gives (`None`: no file part):
/// accepted, or the error answered.
pub open spec fn upload_outcome(file_size: Option<usize>) -> Result<(), ApiError> {
    match file_size {
        None => Err(ApiError::NoFileProvided),
        Some(n) => if n == 0 {
            Err(ApiError::EmptyFile)
        } else if n > MAX_ATTACHMENT_BYTES {
            Err(ApiError::FileTooLarge)
        } else {
            Ok(())
        },
    }
}

/// Checks an uploaded file: it must be present, non-empty and at most 25 MiB.
pub fn check_upload(file_size: Option<usize>) -> (out: Result<(), ApiError>)
    ensures
        out == upload_outcome(file_size),
{
    match file_size {
        None => Err(ApiError::NoFileProvided),
        Some(n) => if n == 0 {
            Err(ApiError::EmptyFile)
        } else if n > MAX_ATTACHMENT_BYTES {
            Err(ApiError::FileTooLarge)
        } else {
            Ok(())
        },
    }
}

/// The characters a stored file name keeps: alphanumeric ones, `.`, `-` and `_`.
/// Among ASCII characters these are the letters, the digits, `.`, `-` and `_`.
pub open spec fn keeps(c: char) -> bool {
    if (c as u32) < 128 {
        is_ascii_letter_or_digit(c) || c == '.' || c == '-' || c == '_'
    } else {
        unicode_alphanumeric(c)
    }
}

/// The characters of `s` that a stored file name keeps, in order.
pub open spec fn kept_chars(s: Seq<char>) -> Seq<char>
    decreases s.len(),
{
    if s.len() == 0 {
        Seq::empty()
    } else if keeps(s.last()) {
        kept_chars(s.drop_last()).push(s.last())
    } else {
        kept_chars(s.drop_last())
    }
}

/// The file name an attachment is stored under: the kept characters, or `file`
/// when none is left.
pub open spec fn safe_filename(s: Seq<char>) -> Seq<char> {
    if kept_chars(s).len() == 0 {
        "file"@
    } else {
        kept_chars(s)
    }
}

/// The storage key of an attachment: `<timestamp>-<hex of random bytes>/<safe name>`.
pub open spec fn attachment_key_spec(filename: Seq<char>, timestamp_ms: u64, random: Seq<u8>) -> Seq<
    char,
> {
    decimal(timestamp_ms as nat) + "-"@ + hex_lower(random) + "/"@ + safe_filename(filename)
}

/// Whether `s` holds two dots in a row.
pub open spec fn has_dot_dot(s: Seq<char>) -> bool {
    exists|i: int| 0 <= i && i + 1 < s.len() && #[trigger] s[i] == '.' && s[i + 1] == '.'
}

/// Whether a requested key may be looked up: it is not empty, holds no `..`,
/// does not start with `/` and holds no NUL character.
pub open spec fn key_is_safe(key: Seq<char>) -> bool {
    key.len() > 0 && !has_dot_dot(key) && key[0] != '/' && !key.contains('\0')
}

/// The text after the last `/` of `s` (all of `s` if it holds none).
pub open spec fn last_segment(s: Seq<char>) -> Seq<char>
    decreases s.len(),
{
    if s.len() == 0 {
        s
    } else if s.last() == '/' {
        Seq::empty()
    } else {
        last_segment(s.drop_last()).push(s.last())
    }
}

/// Every upload of more than 25 MiB is refused as too large, an empty one as
/// empty, a missing one as missing; exactly the files of 1 byte to 25 MiB pass.
pub proof fn lemma_upload_size_limits(n: usize)
    ensures
        upload_outcome(Some(n)) is Ok <==> 0 < n <= MAX_ATTACHMENT_BYTES,
        n > MAX_ATTACHMENT_BYTES ==> upload_outcome(Some(n)) == Err::<(), ApiError>(
            ApiError::FileTooLarge,
        ),
        n == 0 ==> upload_outcome(Some(n)) == Err::<(), ApiError>(ApiError::EmptyFile),
        upload_outcome(None) == Err::<(), ApiError>(ApiError::NoFileProvided),
{
}

/// A character that is an ASCII letter or digit, `.`, `-` or `_`.
pub open spec fn is_plain_name_char(c: char) -> bool {
    ('a' <= c <= 'z') || ('A' <= c <= 'Z') || ('0' <= c <= '9') || c == '.' || c == '-' || c
        == '_'
}

proof fn lemma_kept_chars_plain(s: Seq<char>)
    requires
        forall|i: int| 0 <= i < s.len() ==> is_plain_name_char(#[trigger] s[i]),
    ensures
        kept_chars(s) == s,
    decreases s.len(),
{
    if s.len() > 0 {
        assert(is_plain_name_char(s[s.len() - 1]));
        lemma_kept_chars_plain(s.drop_last());
        assert(s.drop_last().push(s.last()) =~= s);
    }
}

proof fn lemma_kept_chars_kept(s: Seq<char>)
    ensures
        forall|i: int| 0 <= i < kept_chars(s).len() ==> keeps(#[trigger] kept_chars(s)[i]),
        kept_chars(kept_chars(s)) == kept_chars(s),
    decreases s.len(),
{
    if s.len() > 0 {
        lemma_kept_chars_kept(s.drop_last());
        let k = kept_chars(s.drop_last());
        if keeps(s.last()) {
            assert forall|i: int| 0 <= i < kept_chars(s).len() implies keeps(
                #[trigger] kept_chars(s)[i],
            ) by {
                if i < k.len() {
                    assert(kept_chars(s)[i] == k[i]);
                }
            }
            assert(kept_chars(s).drop_last() =~= k);
        }
    }
}

/// A file name made only of ASCII letters, digits, `.`, `-` and `_` is stored
/// as it is: every such character is kept, in order. Sanitising a stored name
/// again changes nothing.
pub proof fn lemma_plain_names_kept(s: Seq<char>)
    ensures
        s.len() > 0 && (forall|i: int| 0 <= i < s.len() ==> is_plain_name_char(#[trigger] s[i]))
            ==> safe_filename(s) == s,
        safe_filename(safe_filename(s)) == safe_filename(s),
{
    if s.len() > 0 && (forall|i: int| 0 <= i < s.len() ==> is_plain_name_char(#[trigger] s[i])) {
        lemma_kept_chars_plain(s);
    }
    lemma_kept_chars_kept(s);
    reveal_strlit("file");
    let f = "file"@;
    assert forall|i: int| 0 <= i < f.len() implies is_plain_name_char(#[trigger] f[i]) by {}
    lemma_kept_chars_plain(f);
}

/// The file name under which an attachment stored under `filename` is stored.
pub fn sanitize_filename(filename: &str) -> (out: String)
    ensures
        out@ == safe_filename(filename@),
        out@.len() > 0,
        !out@.contains('/'),
        !out@.contains('\0'),
{
    let cs = chars_of(filename);
    let mut out = String::new();
    let mut i: usize = 0;
    while i < cs.len()
        invariant
            i <= cs@.len(),
            cs@ == filename@,
            out@ == kept_chars(cs@.take(i as int)),
            !out@.contains('/'),
            !out@.contains('\0'),
        decreases cs@.len() - i,
    {
        let c = cs[i];
        let keep = char_is_alphanumeric(c) || c == '.' || c == '-' || c == '_';
        assert(cs@.take(i + 1).drop_last() =~= cs@.take(i as int));
        assert(cs@.take(i + 1).last() == c);
        if keep {
            let ghost before = out@;
            push_char(&mut out, c);
            assert forall|k: int| 0 <= k < out@.len() implies out@[k] != '/' && out@[k] != '\0' by {
                if k < before.len() {
                    assert(out@[k] == before[k]);
                }
            }
        }
        i = i + 1;
    }
    assert(cs@.take(cs@.len() as int) =~= cs@);
    if out.as_str().is_empty() {
        proof {
            reveal_strlit("file");
        }
        return "file".to_owned();
    }
    out
}

proof fn lemma_hex_digits(b: Seq<u8>)
    ensures
        forall|i: int|
            0 <= i < hex_lower(b).len() ==> ('0' <= #[trigger] hex_lower(b)[i] <= '9') || ('a'
                <= hex_lower(b)[i] <= 'f'),
    decreases b.len(),
{
    if b.len() > 0 {
        lemma_hex_digits(b.drop_last());
        let h = hex_lower(b.drop_last());
        assert forall|i: int| 0 <= i < hex_lower(b).len() implies ('0' <= #[trigger] hex_lower(
            b,
        )[i] <= '9') || ('a' <= hex_lower(b)[i] <= 'f') by {
            if i < h.len() {
                assert(hex_lower(b)[i] == h[i]);
            }
        }
    }
}

proof fn lemma_last_segment_after_slash(p: Seq<char>, s: Seq<char>)
    requires
        !s.contains('/'),
    ensures
        last_segment(p + "/"@ + s) == s,
    decreases s.len(),
{
    reveal_strlit("/");
    if s.len() == 0 {
        assert(p + "/"@ + s =~= p.push('/'));
    } else {
        let t = p + "/"@ + s;
        assert(t.drop_last() =~= p + "/"@ + s.drop_last());
        assert(!s.drop_last().contains('/')) by {
            if s.drop_last().contains('/') {
                let k = choose|k: int| 0 <= k < s.drop_last().len() && s.drop_last()[k] == '/';
                assert(s[k] == '/');
            }
        }
        lemma_last_segment_after_slash(p, s.drop_last());
        assert(s.drop_last().push(s.last()) =~= s);
    }
}

proof fn lemma_dot_dot_suffix(p: Seq<char>, s: Seq<char>)
    requires
        !p.contains('.'),
    ensures
        has_dot_dot(p + s) <==> has_dot_dot(s),
{
    let t = p + s;
    if has_dot_dot(t) {
        let i = choose|i: int| 0 <= i && i + 1 < t.len() && #[trigger] t[i] == '.' && t[i + 1] == '.';
        if i < p.len() {
            assert(t[i] == p[i]);
        }
        assert(s[i - p.len()] == '.');
        assert(s[i - p.len() + 1] == '.');
    }
    if has_dot_dot(s) {
        let i = choose|i: int| 0 <= i && i + 1 < s.len() && #[trigger] s[i] == '.' && s[i + 1] == '.';
        assert(t[i + p.len()] == '.');
        assert(t[i + p.len() + 1] == '.');
    }
}

/// The storage key for a file named `filename`, uploaded at `timestamp_ms`
/// (milliseconds since the epoch), with the given random bytes.
pub fn attachment_key(filename: &str, timestamp_ms: u64, random: &[u8]) -> (key: String)
    ensures
        key@ == attachment_key_spec(filename@, timestamp_ms, random@),
        last_segment(key@) == safe_filename(filename@),
        key_is_safe(key@) <==> !has_dot_dot(safe_filename(filename@)),
{
    let safe = sanitize_filename(filename);
    let mut key = String::new();
    push_decimal(&mut key, timestamp_ms);
    key.append("-");
    let hex = hex_encode(random);
    key.append(hex.as_str());
    key.append("/");
    key.append(safe.as_str());
    proof {
        reveal_strlit("-");
        reveal_strlit("/");
        let d = decimal(timestamp_ms as nat);
        let h = hex_lower(random@);
        let p = d + "-"@ + h;
        assert(key@ =~= p + "/"@ + safe@);
        lemma_last_segment_after_slash(p, safe@);
        lemma_decimal_digits(timestamp_ms as nat);
        lemma_hex_digits(random@);
        let q = p + "/"@;
        assert forall|k: int| 0 <= k < q.len() implies q[k] != '.' && q[k] != '\0' by {
            if k < d.len() {
                assert(q[k] == d[k]);
            } else if k == d.len() {
                assert(q[k] == '-');
            } else if k < d.len() + 1 + h.len() {
                assert(q[k] == h[k - d.len() - 1]);
            } else {
                assert(q[k] == '/');
            }
        }
        assert(key@ =~= q + safe@);
        lemma_dot_dot_suffix(q, safe@);
        assert(key@[0] == d[0]);
        assert(!key@.contains('\0')) by {
            if key@.contains('\0') {
                let k = choose|k: int| 0 <= k < key@.len() && key@[k] == '\0';
                if k >= q.len() {
                    assert(safe@[k - q.len()] == '\0');
                }
            }
        }
    }
    key
}

/// Why no storage key could be made: the system gave no random bytes.
#[derive(Debug, Clone, Copy, PartialEq, Eq, Structural)]
pub enum KeyError {
    RandomUnavailable,
}

/// A fresh storage key for a file named `filename`, uploaded at `timestamp_ms`:
/// eight random bytes from the system go into it.
pub fn generate_attachment_key(filename: &str, timestamp_ms: u64) -> (out: Result<String, KeyError>)
    ensures
        out matches Ok(key) ==> exists|random: Seq<u8>|
            random.len() == 8 && key@ == #[trigger] attachment_key_spec(
                filename@,
                timestamp_ms,
                random,
            ),
        out matches Ok(key) ==> last_segment(key@) == safe_filename(filename@),
        out matches Ok(key) ==> (key_is_safe(key@) <==> !has_dot_dot(safe_filename(filename@))),
{
    let random = match random_bytes() {
        Ok(r) => r,
        Err(_) => return Err(KeyError::RandomUnavailable),
    };
    Ok(attachment_key(filename, timestamp_ms, random.as_slice()))
}

/// Checks a requested key (see `key_is_safe`).
pub fn check_attachment_key(key: &str) -> (out: Result<(), ApiError>)
    ensures
        out is Ok <==> key_is_safe(key@),
        out matches Err(e) ==> e == ApiError::InvalidKey,
{
    let cs = chars_of(key);
    let n = cs.len();
    if n == 0 || cs[0] == '/' {
        return Err(ApiError::InvalidKey);
    }
    let mut i: usize = 0;
    while i < n
        invariant
            n == cs@.len(),
            cs@ == key@,
            i <= n,
            forall|k: int| 0 <= k < i ==> cs@[k] != '\0',
            forall|k: int| 0 <= k < i && k + 1 < n ==> !(#[trigger] cs@[k] == '.' && cs@[k + 1] == '.'),
        decreases n - i,
    {
        if cs[i] == '\0' {
            return Err(ApiError::InvalidKey);
        }
        if i + 1 < n && cs[i] == '.' && cs[i + 1] == '.' {
            return Err(ApiError::InvalidKey);
        }
        i = i + 1;
    }
    proof {
        assert(!has_dot_dot(key@)) by {
            if has_dot_dot(key@) {
                let k = choose|k: int| 0 <= k && k + 1 < key@.len() && #[trigger] key@[k] == '.'
                    && key@[k + 1] == '.';
                assert(!(cs@[k] == '.' && cs@[k + 1] == '.'));
            }
        }
    }
    Ok(())
}

proof fn lemma_last_segment_from(s: Seq<char>, j: int)
    requires
        0 <= j <= s.len(),
        forall|k: int| j <= k < s.len() ==> s[k] != '/',
        j == 0 || s[j - 1] == '/',
    ensures
        last_segment(s) == s.skip(j),
    decreases s.len(),
{
    if s.len() == j {
        if j > 0 {
            assert(s.skip(j) =~= Seq::<char>::empty());
        }
    } else {
        lemma_last_segment_from(s.drop_last(), j);
        assert(s.drop_last().skip(j).push(s.last()) =~= s.skip(j));
    }
}

/// The file name a download is offered under: the last `/`-separated segment of
/// the key.
pub fn download_filename(key: &str) -> (name: String)
    ensures
        name@ == last_segment(key@),
{
    let cs = chars_of(key);
    let n = cs.len();
    let mut j: usize = n;
    while j > 0 && cs[j - 1] != '/'
        invariant
            n == cs@.len(),
            cs@ == key@,
            j <= n,
            forall|k: int| j <= k < n ==> cs@[k] != '/',
        decreases j,
    {
        j = j - 1;
    }
    proof {
        lemma_last_segment_from(key@, j as int);
    }
    key.substring_char(j, n).to_owned()
}

/// The `Content-Disposition` header of a download.
pub fn content_disposition(key: &str) -> (header: String)
    ensures
        header@ == "attachment; filename=\""@ + last_segment(key@) + "\""@,
{
    let mut header = "attachment; filename=\"".to_owned();
    let name = download_filename(key);
    header.append(name.as_str());
    header.append("\"");
    header
}

/// The `Content-Type` of a download: the stored one, or `application/octet-stream`.
pub fn content_type_or_default(stored: Option<String>) -> (content_type: String)
    ensures
        content_type@ == (match stored {
            Some(t) => t@,
            None => "application/octet-stream"@,
        }),
{
    match stored {
        Some(t) => t,
        None => "application/octet-stream".to_owned(),
    }
}

} // verus!
