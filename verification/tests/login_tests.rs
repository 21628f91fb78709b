use guestbook::api::ApiError;
use guestbook::auth::admin_login;
use guestbook::jwt::verify_jwt;

const NOW: u64 = 1_700_000_000;

#[test]
fn login_defaults_to_admin_user() {
    let token = admin_login("admin", "pw", None, Some("pw"), Some("k"), NOW).unwrap();
    assert_eq!(verify_jwt(&token, "k", NOW), Some("admin".to_string()));
    assert_eq!(
        admin_login("root", "pw", None, Some("pw"), Some("k"), NOW),
        Err(ApiError::InvalidCredentials)
    );
}

#[test]
fn login_with_configured_user() {
    let token = admin_login("boss", "pw", Some("boss"), Some("pw"), Some("k"), NOW).unwrap();
    assert_eq!(verify_jwt(&token, "k", NOW), Some("boss".to_string()));
    assert_eq!(
        admin_login("admin", "pw", Some("boss"), Some("pw"), Some("k"), NOW),
        Err(ApiError::InvalidCredentials)
    );
}

#[test]
fn login_with_wrong_password_is_refused() {
    assert_eq!(
        admin_login("admin", "pW", None, Some("pw"), Some("k"), NOW),
        Err(ApiError::InvalidCredentials)
    );
    assert_eq!(
        admin_login("admin", "pw ", None, Some("pw"), Some("k"), NOW),
        Err(ApiError::InvalidCredentials)
    );
}

#[test]
fn login_configuration_errors_come_first() {
    assert_eq!(
        admin_login("nobody", "x", None, None, None, NOW),
        Err(ApiError::AdminNotConfigured)
    );
    assert_eq!(
        admin_login("nobody", "x", None, Some("pw"), None, NOW),
        Err(ApiError::ServerConfiguration)
    );
}

#[test]
fn configuration_errors_answer_500() {
    assert_eq!(ApiError::AdminNotConfigured.status(), 500);
    assert_eq!(ApiError::AdminNotConfigured.message(), "Admin not configured");
    assert_eq!(ApiError::ServerConfiguration.status(), 500);
    assert_eq!(ApiError::ServerConfiguration.message(), "Server configuration error");
    assert_eq!(ApiError::InvalidCredentials.status(), 401);
    assert_eq!(ApiError::InvalidCredentials.message(), "Invalid credentials");
}
