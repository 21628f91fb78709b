use guestbook::api::ApiError;
use guestbook::auth::admin_login;
use guestbook::routing::{parse_positive_id, route, Action, Method};

const NOW: u64 = 1_700_000_000;

fn token() -> String {
    format!("Bearer {}", admin_login("admin", "pw", None, Some("pw"), Some("k"), NOW).unwrap())
}

fn go(method: Method, path: &str) -> Action {
    route(method, path, None, Some("k"), NOW)
}

#[test]
fn options_is_preflight_everywhere() {
    assert!(matches!(go(Method::Options, "/"), Action::Preflight));
    assert!(matches!(go(Method::Options, "/nowhere"), Action::Preflight));
    assert!(matches!(go(Method::Options, "/api/admin/messages"), Action::Preflight));
}

#[test]
fn static_pages() {
    assert!(matches!(go(Method::Get, "/"), Action::IndexPage));
    assert!(matches!(go(Method::Get, "/index.html"), Action::IndexPage));
    assert!(matches!(go(Method::Get, "/admin"), Action::AdminPage));
    assert!(matches!(go(Method::Get, "/admin/"), Action::AdminPage));
    assert!(matches!(go(Method::Post, "/"), Action::Reject(ApiError::NotFound)));
    assert!(matches!(go(Method::Get, "/index"), Action::Reject(ApiError::NotFound)));
}

#[test]
fn public_api() {
    assert!(matches!(go(Method::Get, "/api/messages"), Action::ListApprovedMessages));
    assert!(matches!(go(Method::Post, "/api/messages"), Action::CreateMessage));
    assert!(matches!(go(Method::Post, "/api/upload"), Action::UploadAttachment));
    assert!(matches!(go(Method::Get, "/api/upload"), Action::Reject(ApiError::NotFound)));
    assert!(matches!(go(Method::Put, "/api/messages"), Action::Reject(ApiError::NotFound)));
    assert!(matches!(go(Method::Post, "/api/admin/login"), Action::AdminLogin));
    assert!(matches!(go(Method::Get, "/api/admin/login"), Action::Reject(ApiError::NotFound)));
}

#[test]
fn attachment_key_is_percent_decoded() {
    match go(Method::Get, "/api/attachments/17-ab/my%20file.txt") {
        Action::GetAttachment(k) => assert_eq!(k, "17-ab/my file.txt"),
        other => panic!("{:?}", other),
    }
    match go(Method::Get, "/api/attachments/") {
        Action::GetAttachment(k) => assert_eq!(k, ""),
        other => panic!("{:?}", other),
    }
    match go(Method::Get, "/api/attachments/%2e%2e%2fx") {
        Action::GetAttachment(k) => assert_eq!(k, "../x"),
        other => panic!("{:?}", other),
    }
    assert!(matches!(go(Method::Post, "/api/attachments/x"), Action::Reject(ApiError::NotFound)));
}

#[test]
fn admin_list_needs_token() {
    assert!(matches!(go(Method::Get, "/api/admin/messages"), Action::Reject(ApiError::Unauthorized)));
    let t = token();
    assert!(matches!(
        route(Method::Get, "/api/admin/messages", Some(&t), Some("k"), NOW),
        Action::ListAllMessages
    ));
    assert!(matches!(
        route(Method::Get, "/api/admin/messages", Some(&t), Some("other"), NOW),
        Action::Reject(ApiError::Unauthorized)
    ));
    assert!(matches!(
        route(Method::Get, "/api/admin/messages", Some(&t), None, NOW),
        Action::MissingJwtSecret
    ));
    assert!(matches!(
        route(Method::Get, "/api/admin/messages", Some(&t), Some("k"), NOW + 86_401),
        Action::Reject(ApiError::Unauthorized)
    ));
}

#[test]
fn admin_message_actions() {
    let t = token();
    let r = |m, p| route(m, p, Some(&t), Some("k"), NOW);
    assert!(matches!(r(Method::Put, "/api/admin/messages/42/approve"), Action::ApproveMessage(42)));
    assert!(matches!(r(Method::Put, "/api/admin/messages/42/approve/approve"), Action::ApproveMessage(42)));
    assert!(matches!(r(Method::Delete, "/api/admin/messages/7"), Action::DeleteMessage(7)));
    assert!(matches!(r(Method::Put, "/api/admin/messages/0/approve"), Action::Reject(ApiError::InvalidMessageId)));
    assert!(matches!(r(Method::Delete, "/api/admin/messages/abc"), Action::Reject(ApiError::InvalidMessageId)));
    assert!(matches!(r(Method::Delete, "/api/admin/messages/42/approve"), Action::Reject(ApiError::InvalidMessageId)));
    assert!(matches!(r(Method::Get, "/api/admin/messages/42"), Action::Reject(ApiError::NotFound)));
    assert!(matches!(r(Method::Put, "/api/admin/messages/42"), Action::Reject(ApiError::NotFound)));
    assert!(matches!(r(Method::Post, "/api/admin/messages/42/approve"), Action::Reject(ApiError::NotFound)));
}

#[test]
fn admin_message_actions_check_token_first() {
    assert!(matches!(go(Method::Put, "/api/admin/messages/42/approve"), Action::Reject(ApiError::Unauthorized)));
    assert!(matches!(go(Method::Get, "/api/admin/messages/x"), Action::Reject(ApiError::Unauthorized)));
    assert!(matches!(
        route(Method::Delete, "/api/admin/messages/1", Some("Bearer x"), None, NOW),
        Action::MissingJwtSecret
    ));
}

#[test]
fn unknown_paths_are_not_found() {
    assert!(matches!(go(Method::Get, "/favicon.ico"), Action::Reject(ApiError::NotFound)));
    assert!(matches!(go(Method::Other, "/"), Action::Reject(ApiError::NotFound)));
    assert_eq!(ApiError::NotFound.status(), 404);
    assert_eq!(ApiError::NotFound.message(), "Not found");
}

#[test]
fn message_ids() {
    assert_eq!(parse_positive_id("5"), Some(5));
    assert_eq!(parse_positive_id("+5"), Some(5));
    assert_eq!(parse_positive_id("007"), Some(7));
    assert_eq!(parse_positive_id("9223372036854775807"), Some(i64::MAX));
    assert_eq!(parse_positive_id("9223372036854775808"), None);
    assert_eq!(parse_positive_id("99999999999999999999999"), None);
    assert_eq!(parse_positive_id("0"), None);
    assert_eq!(parse_positive_id("-3"), None);
    assert_eq!(parse_positive_id(""), None);
    assert_eq!(parse_positive_id("+"), None);
    assert_eq!(parse_positive_id(" 5"), None);
    assert_eq!(parse_positive_id("5x"), None);
    assert_eq!(ApiError::InvalidMessageId.status(), 400);
    assert_eq!(ApiError::InvalidMessageId.message(), "Invalid message ID");
}
