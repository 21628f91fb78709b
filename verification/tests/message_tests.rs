use guestbook::api::{bool_from_int_or_bool, ApiError, FlagValue};
use guestbook::messages::validate_new_message;
use guestbook::text::trim;

#[test]
fn valid_message_is_trimmed() {
    let r = validate_new_message("  Alice \n", Some("alice@example.com"), "\tHello World!  ", Some("k/1")).unwrap();
    assert_eq!(r.name, "Alice");
    assert_eq!(r.content, "Hello World!");
    assert_eq!(r.email, Some("alice@example.com".to_string()));
    assert_eq!(r.attachment_key, Some("k/1".to_string()));
}

#[test]
fn empty_optional_fields_are_dropped() {
    let r = validate_new_message("Bob", Some(""), "hi", Some("")).unwrap();
    assert_eq!(r.email, None);
    assert_eq!(r.attachment_key, None);
    let r = validate_new_message("Bob", None, "hi", None).unwrap();
    assert_eq!(r.email, None);
    assert_eq!(r.attachment_key, None);
}

#[test]
fn email_is_kept_untrimmed() {
    let r = validate_new_message("Bob", Some(" b@x "), "hi", None).unwrap();
    assert_eq!(r.email, Some(" b@x ".to_string()));
}

#[test]
fn name_required() {
    assert_eq!(validate_new_message("   ", None, "hi", None).err(), Some(ApiError::NameRequired));
    assert_eq!(ApiError::NameRequired.status(), 400);
    assert_eq!(ApiError::NameRequired.message(), "Name is required");
}

#[test]
fn name_length_counts_bytes() {
    let ok = "a".repeat(100);
    assert!(validate_new_message(&ok, None, "hi", None).is_ok());
    let long = "a".repeat(101);
    assert_eq!(validate_new_message(&long, None, "hi", None).err(), Some(ApiError::NameTooLong));
    let wide = "中".repeat(34);
    assert_eq!(validate_new_message(&wide, None, "hi", None).err(), Some(ApiError::NameTooLong));
    assert_eq!(ApiError::NameTooLong.message(), "Name must be 100 characters or fewer");
}

#[test]
fn content_checks() {
    assert_eq!(validate_new_message("a", None, " \t ", None).err(), Some(ApiError::ContentRequired));
    let ok = "x".repeat(2000);
    assert!(validate_new_message("a", None, &ok, None).is_ok());
    let long = "x".repeat(2001);
    assert_eq!(validate_new_message("a", None, &long, None).err(), Some(ApiError::ContentTooLong));
    assert_eq!(ApiError::ContentRequired.message(), "Content is required");
    assert_eq!(ApiError::ContentTooLong.message(), "Content must be 2000 characters or fewer");
}

#[test]
fn email_length_checked() {
    let ok = "e".repeat(200);
    assert!(validate_new_message("a", Some(&ok), "c", None).is_ok());
    let long = "e".repeat(201);
    assert_eq!(validate_new_message("a", Some(&long), "c", None).err(), Some(ApiError::EmailTooLong));
    assert_eq!(ApiError::EmailTooLong.message(), "Email must be 200 characters or fewer");
}

#[test]
fn errors_come_in_order() {
    let long = "e".repeat(201);
    assert_eq!(validate_new_message("", Some(&long), "", None).err(), Some(ApiError::NameRequired));
    assert_eq!(validate_new_message("a", Some(&long), "", None).err(), Some(ApiError::ContentRequired));
}

#[test]
fn trim_removes_unicode_whitespace() {
    assert_eq!(trim("\u{3000}x y\u{a0}\r\n"), "x y");
    assert_eq!(trim("\u{b}\u{c}a"), "a");
    assert_eq!(trim(""), "");
    assert_eq!(trim("   "), "");
}

#[test]
fn flag_values() {
    assert!(bool_from_int_or_bool(FlagValue::Bool(true)));
    assert!(!bool_from_int_or_bool(FlagValue::Bool(false)));
    assert!(bool_from_int_or_bool(FlagValue::Int(1)));
    assert!(bool_from_int_or_bool(FlagValue::Int(-1)));
    assert!(!bool_from_int_or_bool(FlagValue::Int(0)));
    assert!(bool_from_int_or_bool(FlagValue::UInt(2)));
    assert!(!bool_from_int_or_bool(FlagValue::UInt(0)));
}
