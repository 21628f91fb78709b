//! Request routing: which handler a request reaches, after the CORS preflight
//! and, for the admin API, after the bearer-token check.

use vstd::prelude::*;

use crate::api::ApiError;
use crate::auth::{auth_outcome, bearer_token, check_auth, opt_str};
use crate::jwt::jwt_subject;
use crate::codec::{percent_decode, percent_decoding};
use crate::text::{chars_of, decimal, has_prefix, has_suffix, lemma_decimal_digits};

verus! {

/// The request methods the service tells apart.
#[derive(Debug, Clone, Copy, PartialEq, Eq, Structural)]
pub enum Method {
    Get,
    Post,
    Put,
    Delete,
    Options,
    Other,
}

/// What a request leads to.
#[derive(Debug)]
pub enum Action {
    /// Answer a CORS preflight.
    Preflight,
    /// Serve the guestbook page.
    IndexPage,
    /// Serve the admin page.
    AdminPage,
    /// List the approved messages.
    ListApprovedMessages,
    /// Store a new message.
    CreateMessage,
    /// Store an uploaded attachment.
    UploadAttachment,
    /// Send the attachment stored under the (percent-decoded) key.
    GetAttachment(String),
    /// Check admin credentials.
    AdminLogin,
    /// List all messages (admin only).
    ListAllMessages,
    /// Approve a message (admin only).
    ApproveMessage(i64),
    /// Delete a message (admin only).
    DeleteMessage(i64),
    /// Answer with an error.
    Reject(ApiError),
    /// Fail: the token secret the admin API needs is not configured.
    MissingJwtSecret,
}

/// An `Action` with its strings taken as character sequences.
pub enum ActionView {
    Preflight,
    IndexPage,
    AdminPage,
    ListApprovedMessages,
    CreateMessage,
    UploadAttachment,
    GetAttachment(Seq<char>),
    AdminLogin,
    ListAllMessages,
    ApproveMessage(i64),
    DeleteMessage(i64),
    Reject(ApiError),
    MissingJwtSecret,
}

impl View for Action {
    type V = ActionView;

    open spec fn view(&self) -> ActionView {
        match self {
            Action::Preflight => ActionView::Preflight,
            Action::IndexPage => ActionView::IndexPage,
            Action::AdminPage => ActionView::AdminPage,
            Action::ListApprovedMessages => ActionView::ListApprovedMessages,
            Action::CreateMessage => ActionView::CreateMessage,
            Action::UploadAttachment => ActionView::UploadAttachment,
            Action::GetAttachment(k) => ActionView::GetAttachment(k@),
            Action::AdminLogin => ActionView::AdminLogin,
            Action::ListAllMessages => ActionView::ListAllMessages,
            Action::ApproveMessage(id) => ActionView::ApproveMessage(*id),
            Action::DeleteMessage(id) => ActionView::DeleteMessage(*id),
            Action::Reject(e) => ActionView::Reject(*e),
            Action::MissingJwtSecret => ActionView::MissingJwtSecret,
        }
    }
}

/// Whether every character of `s` is an ASCII decimal digit.
pub open spec fn all_digits(s: Seq<char>) -> bool {
    forall|i: int| 0 <= i < s.len() ==> '0' <= #[trigger] s[i] <= '9'
}

/// The number written by the decimal digits `s`.
pub open spec fn digits_value(s: Seq<char>) -> nat
    decreases s.len(),
{
    if s.len() == 0 {
        0
    } else {
        digits_value(s.drop_last()) * 10 + ((s.last() as u32) - 48) as nat
    }
}

/// The message id written by `s`, as `s.parse::<i64>()` reads it (an optional
/// `+`, then one or more digits, within range), kept only when it is positive.
pub open spec fn positive_id(s: Seq<char>) -> Option<i64> {
    let digits = if s.len() > 0 && s[0] == '+' {
        s.drop_first()
    } else {
        s
    };
    if digits.len() > 0 && all_digits(digits) && 0 < digits_value(digits) <= i64::MAX {
        Some(digits_value(digits) as i64)
    } else {
        None
    }
}

proof fn lemma_digits_value_grows(s: Seq<char>, k: int)
    requires
        0 <= k <= s.len(),
        all_digits(s),
    ensures
        digits_value(s.take(k)) <= digits_value(s),
    decreases s.len() - k,
{
    if k < s.len() {
        assert(s.drop_last().take(k) =~= s.take(k));
        assert(all_digits(s.drop_last()));
        lemma_digits_value_grows(s.drop_last(), k);
    } else {
        assert(s.take(k) =~= s);
    }
}

/// The positive message id written in `s`, if any (see `positive_id`).
pub fn parse_positive_id(s: &str) -> (id: Option<i64>)
    ensures
        id == positive_id(s@),
{
    let cs = chars_of(s);
    let n = cs.len();
    let mut i: usize = 0;
    if n > 0 && cs[0] == '+' {
        i = 1;
    }
    let start = i;
    let ghost digits = cs@.skip(start as int);
    assert(digits =~= (if cs@.len() > 0 && cs@[0] == '+' {
        cs@.drop_first()
    } else {
        cs@
    }));
    if start == n {
        return None;
    }
    let mut value: u64 = 0;
    while i < n
        invariant
            n == cs@.len(),
            cs@ == s@,
            start <= i <= n,
            start < n,
            digits == cs@.skip(start as int),
            digits == (if s@.len() > 0 && s@[0] == '+' {
                s@.drop_first()
            } else {
                s@
            }),
            all_digits(cs@.subrange(start as int, i as int)),
            value == digits_value(cs@.subrange(start as int, i as int)),
            value <= i64::MAX,
        decreases n - i,
    {
        let c = cs[i];
        if c < '0' || c > '9' {
            assert(digits[i - start] == c);
            assert(!('0' <= digits[i - start] <= '9'));
            return None;
        }
        let d: u64 = ((c as u32) - 48) as u64;
        assert(cs@.subrange(start as int, i + 1).drop_last() =~= cs@.subrange(
            start as int,
            i as int,
        ));
        if value > (9223372036854775807u64 - d) / 10 {
            proof {
                let prefix = cs@.subrange(start as int, i + 1);
                assert(all_digits(prefix));
                assert(value * 10 + d > 9223372036854775807u64) by (nonlinear_arith)
                    requires
                        value > (9223372036854775807u64 - d) / 10,
                        d <= 9,
                ;
                assert(prefix.last() == c);
                assert(digits_value(prefix) == value * 10 + d);
                assert(prefix =~= digits.take(i + 1 - start));
                if all_digits(digits) {
                    lemma_digits_value_grows(digits, i + 1 - start);
                }
            }
            return None;
        }
        value = value * 10 + d;
        i = i + 1;
    }
    assert(cs@.subrange(start as int, n as int) =~= digits);
    if value == 0 {
        return None;
    }
    Some(value as i64)
}

/// `s` with every trailing repetition of `suffix` removed (`trim_end_matches`).
pub open spec fn strip_suffixes(s: Seq<char>, suffix: Seq<char>) -> Seq<char>
    decreases s.len(),
{
    if suffix.len() > 0 && suffix.is_suffix_of(s) {
        strip_suffixes(s.take(s.len() - suffix.len()), suffix)
    } else {
        s
    }
}

fn strip_suffixes_exec(cs: &[char], suffix: &[char]) -> (out: Vec<char>)
    ensures
        out@ == strip_suffixes(cs@, suffix@),
{
    let mut cur: Vec<char> = Vec::new();
    let mut i: usize = 0;
    while i < cs.len()
        invariant
            i <= cs@.len(),
            cur@ == cs@.take(i as int),
        decreases cs@.len() - i,
    {
        cur.push(cs[i]);
        i = i + 1;
        assert(cur@ =~= cs@.take(i as int));
    }
    assert(cs@.take(cs@.len() as int) =~= cs@);
    while suffix.len() > 0 && has_suffix(cur.as_slice(), suffix)
        invariant
            strip_suffixes(cur@, suffix@) == strip_suffixes(cs@, suffix@),
        decreases cur@.len(),
    {
        let keep = cur.len() - suffix.len();
        cur.truncate(keep);
    }
    cur
}

/// What a request under `/api/admin/messages/` asks for, given the rest of its path.
pub open spec fn admin_message_action(method: Method, rest: Seq<char>) -> ActionView {
    if "/approve"@.is_suffix_of(rest) && method == Method::Put {
        match positive_id(strip_suffixes(rest, "/approve"@)) {
            Some(id) => ActionView::ApproveMessage(id),
            None => ActionView::Reject(ApiError::InvalidMessageId),
        }
    } else if method == Method::Delete {
        match positive_id(rest) {
            Some(id) => ActionView::DeleteMessage(id),
            None => ActionView::Reject(ApiError::InvalidMessageId),
        }
    } else {
        ActionView::Reject(ApiError::NotFound)
    }
}

/// An admin action, reached only with an accepted bearer token.
pub open spec fn guarded(
    authorization: Option<Seq<char>>,
    jwt_secret: Option<Seq<char>>,
    now: u64,
    action: ActionView,
) -> ActionView {
    match auth_outcome(authorization, jwt_secret, now) {
        Err(_) => ActionView::MissingJwtSecret,
        Ok(None) => ActionView::Reject(ApiError::Unauthorized),
        Ok(Some(_)) => action,
    }
}

/// Where a request goes: its method and path, its `Authorization` header, the
/// configured token secret, and the time, in seconds since the epoch.
pub open spec fn route_spec(
    method: Method,
    path: Seq<char>,
    authorization: Option<Seq<char>>,
    jwt_secret: Option<Seq<char>>,
    now: u64,
) -> ActionView {
    if method == Method::Options {
        ActionView::Preflight
    } else if method == Method::Get && (path == "/"@ || path == "/index.html"@) {
        ActionView::IndexPage
    } else if method == Method::Get && (path == "/admin"@ || path == "/admin/"@) {
        ActionView::AdminPage
    } else if method == Method::Get && path == "/api/messages"@ {
        ActionView::ListApprovedMessages
    } else if method == Method::Post && path == "/api/messages"@ {
        ActionView::CreateMessage
    } else if method == Method::Post && path == "/api/upload"@ {
        ActionView::UploadAttachment
    } else if method == Method::Get && "/api/attachments/"@.is_prefix_of(path) {
        ActionView::GetAttachment(percent_decoding(path.skip("/api/attachments/"@.len() as int)))
    } else if method == Method::Post && path == "/api/admin/login"@ {
        ActionView::AdminLogin
    } else if method == Method::Get && path == "/api/admin/messages"@ {
        guarded(authorization, jwt_secret, now, ActionView::ListAllMessages)
    } else if "/api/admin/messages/"@.is_prefix_of(path) {
        guarded(
            authorization,
            jwt_secret,
            now,
            admin_message_action(method, path.skip("/api/admin/messages/"@.len() as int)),
        )
    } else {
        ActionView::Reject(ApiError::NotFound)
    }
}

/// The admin actions (listing all messages, approving, deleting) are reached only
/// with a bearer token that is accepted under the configured secret at the time
/// of the request, and only for positive message ids.
pub proof fn lemma_admin_actions_need_token(
    method: Method,
    path: Seq<char>,
    authorization: Option<Seq<char>>,
    jwt_secret: Option<Seq<char>>,
    now: u64,
)
    ensures
        ({
            let a = route_spec(method, path, authorization, jwt_secret, now);
            a is ListAllMessages || a is ApproveMessage || a is DeleteMessage
        }) ==> (authorization matches Some(h) && bearer_token(h) matches Some(t)
            && jwt_secret matches Some(s) && jwt_subject(t, s, now) is Some),
        route_spec(method, path, authorization, jwt_secret, now) matches ActionView::ApproveMessage(
            id,
        ) ==> id > 0,
        route_spec(method, path, authorization, jwt_secret, now) matches ActionView::DeleteMessage(
            id,
        ) ==> id > 0,
{
}

/// Every `OPTIONS` request is answered as a CORS preflight, whatever its path.
pub proof fn lemma_options_is_preflight(
    path: Seq<char>,
    authorization: Option<Seq<char>>,
    jwt_secret: Option<Seq<char>>,
    now: u64,
)
    ensures
        route_spec(Method::Options, path, authorization, jwt_secret, now) is Preflight,
{
}

/// The decimal digits of a number read back as that number.
pub proof fn lemma_decimal_value(n: nat)
    ensures
        all_digits(decimal(n)),
        digits_value(decimal(n)) == n,
    decreases n,
{
    lemma_decimal_digits(n);
    let d = (n % 10) as int;
    assert((crate::text::digit_char(d) as u32) == d + 48);
    if n >= 10 {
        lemma_decimal_value(n / 10);
        assert(decimal(n).drop_last() =~= decimal(n / 10));
        assert(decimal(n).last() == crate::text::digit_char(d));
        assert(digits_value(decimal(n)) == digits_value(decimal(n / 10)) * 10 + d);
    } else {
        assert(decimal(n).drop_last() =~= Seq::<char>::empty());
        assert(decimal(n).last() == crate::text::digit_char(d));
        assert(digits_value(decimal(n)) == digits_value(Seq::<char>::empty()) * 10 + d);
    }
}

/// A positive number written in decimal is read back as that id.
pub proof fn lemma_positive_id_of_decimal(id: i64)
    requires
        id > 0,
    ensures
        positive_id(decimal(id as nat)) == Some(id),
{
    lemma_decimal_value(id as nat);
    lemma_decimal_digits(id as nat);
    assert('0' <= decimal(id as nat)[0] <= '9');
}

/// A DELETE of `/api/admin/messages/<id>` with an accepted bearer token deletes
/// exactly the message whose id is written by the whole rest of the path, for
/// every positive id.
pub proof fn lemma_delete_targets_written_id(
    id: i64,
    authorization: Option<Seq<char>>,
    jwt_secret: Option<Seq<char>>,
    now: u64,
)
    requires
        id > 0,
        auth_outcome(authorization, jwt_secret, now) matches Ok(Some(_)),
    ensures
        route_spec(
            Method::Delete,
            "/api/admin/messages/"@ + decimal(id as nat),
            authorization,
            jwt_secret,
            now,
        ) == ActionView::DeleteMessage(id),
{
    let prefix = "/api/admin/messages/"@;
    let path = prefix + decimal(id as nat);
    assert(path.take(prefix.len() as int) =~= prefix);
    assert(path.skip(prefix.len() as int) =~= decimal(id as nat));
    lemma_positive_id_of_decimal(id);
}

/// A PUT of `/api/admin/messages/<id>/approve` with an accepted bearer token
/// approves exactly the message whose id is written before `/approve`, for every
/// positive id.
pub proof fn lemma_approve_targets_written_id(
    id: i64,
    authorization: Option<Seq<char>>,
    jwt_secret: Option<Seq<char>>,
    now: u64,
)
    requires
        id > 0,
        auth_outcome(authorization, jwt_secret, now) matches Ok(Some(_)),
    ensures
        route_spec(
            Method::Put,
            "/api/admin/messages/"@ + decimal(id as nat) + "/approve"@,
            authorization,
            jwt_secret,
            now,
        ) == ActionView::ApproveMessage(id),
{
    reveal_strlit("/approve");
    let prefix = "/api/admin/messages/"@;
    let suffix = "/approve"@;
    let digits = decimal(id as nat);
    let rest = digits + suffix;
    let path = prefix + digits + suffix;
    assert(path =~= prefix + rest);
    assert(path.take(prefix.len() as int) =~= prefix);
    assert(path.skip(prefix.len() as int) =~= rest);
    assert(rest.subrange(rest.len() - suffix.len(), rest.len() as int) =~= suffix);
    assert(suffix.is_suffix_of(rest));
    assert(rest.take(rest.len() - suffix.len()) =~= digits);
    lemma_decimal_digits(id as nat);
    assert(!suffix.is_suffix_of(digits)) by {
        if suffix.is_suffix_of(digits) {
            let last = digits.len() - 1;
            assert(digits.subrange(digits.len() - suffix.len(), digits.len() as int)[suffix.len() - 1]
                == digits[last]);
            assert('0' <= digits[last] <= '9');
        }
    }
    assert(strip_suffixes(digits, suffix) == digits);
    assert(strip_suffixes(rest, suffix) == digits);
    lemma_positive_id_of_decimal(id);
}

fn is_text(cs: &[char], text: &str) -> (b: bool)
    ensures
        b == (cs@ == text@),
{
    let t = chars_of(text);
    if t.len() != cs.len() {
        return false;
    }
    let r = has_prefix(cs, t.as_slice());
    assert(r ==> cs@.take(t@.len() as int) =~= cs@);
    r
}

fn admin_message(method: Method, rest: &str) -> (a: Action)
    ensures
        a@ == admin_message_action(method, rest@),
{
    let cs = chars_of(rest);
    let approve = chars_of("/approve");
    if has_suffix(cs.as_slice(), approve.as_slice()) && method == Method::Put {
        let stripped = strip_suffixes_exec(cs.as_slice(), approve.as_slice());
        let id_text = crate::text::string_from_chars(stripped.as_slice());
        match parse_positive_id(id_text.as_str()) {
            Some(id) => Action::ApproveMessage(id),
            None => Action::Reject(ApiError::InvalidMessageId),
        }
    } else if method == Method::Delete {
        match parse_positive_id(rest) {
            Some(id) => Action::DeleteMessage(id),
            None => Action::Reject(ApiError::InvalidMessageId),
        }
    } else {
        Action::Reject(ApiError::NotFound)
    }
}

fn guard(authorization: Option<&str>, jwt_secret: Option<&str>, now: u64, action: Action) -> (a: Action)
    ensures
        a@ == guarded(opt_str(authorization), opt_str(jwt_secret), now, action@),
{
    match check_auth(authorization, jwt_secret, now) {
        Err(_) => Action::MissingJwtSecret,
        Ok(None) => Action::Reject(ApiError::Unauthorized),
        Ok(Some(_)) => action,
    }
}

/// Decides what a request leads to: a CORS preflight for any `OPTIONS` request,
/// then the routes of the public pages and API, and for the admin API (but the
/// login) the bearer-token check before the admin action. `authorization` is the
/// `Authorization` header, `jwt_secret` the configured token secret, `now` the
/// time in seconds since the epoch.
pub fn route(
    method: Method,
    path: &str,
    authorization: Option<&str>,
    jwt_secret: Option<&str>,
    now: u64,
) -> (a: Action)
    ensures
        a@ == route_spec(method, path@, opt_str(authorization), opt_str(jwt_secret), now),
{
    if method == Method::Options {
        return Action::Preflight;
    }
    let cs = chars_of(path);
    let n = cs.len();
    if method == Method::Get && (is_text(&cs, "/") || is_text(&cs, "/index.html")) {
        return Action::IndexPage;
    }
    if method == Method::Get && (is_text(&cs, "/admin") || is_text(&cs, "/admin/")) {
        return Action::AdminPage;
    }
    if method == Method::Get && is_text(&cs, "/api/messages") {
        return Action::ListApprovedMessages;
    }
    if method == Method::Post && is_text(&cs, "/api/messages") {
        return Action::CreateMessage;
    }
    if method == Method::Post && is_text(&cs, "/api/upload") {
        return Action::UploadAttachment;
    }
    let attachments = chars_of("/api/attachments/");
    if method == Method::Get && has_prefix(&cs, &attachments) {
        let raw = path.substring_char(attachments.len(), n);
        assert(raw@ =~= path@.skip("/api/attachments/"@.len() as int));
        return Action::GetAttachment(percent_decode(raw));
    }
    if method == Method::Post && is_text(&cs, "/api/admin/login") {
        return Action::AdminLogin;
    }
    if method == Method::Get && is_text(&cs, "/api/admin/messages") {
        return guard(authorization, jwt_secret, now, Action::ListAllMessages);
    }
    let admin_messages = chars_of("/api/admin/messages/");
    if has_prefix(&cs, &admin_messages) {
        let rest = path.substring_char(admin_messages.len(), n);
        assert(rest@ =~= path@.skip("/api/admin/messages/"@.len() as int));
        return guard(authorization, jwt_secret, now, admin_message(method, rest));
    }
    Action::Reject(ApiError::NotFound)
}

} // verus!
