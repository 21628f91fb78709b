use guestbook::api::ApiError;
use guestbook::attachments::{
    attachment_key, check_attachment_key, check_upload, content_disposition,
    content_type_or_default, download_filename, generate_attachment_key, sanitize_filename,
    MAX_ATTACHMENT_BYTES,
};

#[test]
fn upload_limits() {
    assert_eq!(check_upload(None), Err(ApiError::NoFileProvided));
    assert_eq!(check_upload(Some(0)), Err(ApiError::EmptyFile));
    assert_eq!(check_upload(Some(1)), Ok(()));
    assert_eq!(MAX_ATTACHMENT_BYTES, 25 * 1024 * 1024);
    assert_eq!(check_upload(Some(25 * 1024 * 1024)), Ok(()));
    assert_eq!(check_upload(Some(25 * 1024 * 1024 + 1)), Err(ApiError::FileTooLarge));
    assert_eq!(ApiError::FileTooLarge.status(), 413);
    assert_eq!(ApiError::FileTooLarge.message(), "File exceeds 25 MB limit");
    assert_eq!(ApiError::NoFileProvided.message(), "No file provided");
    assert_eq!(ApiError::EmptyFile.message(), "Empty file");
    assert_eq!(ApiError::StorageNotConfigured.status(), 503);
    assert_eq!(ApiError::StorageNotConfigured.message(), "Attachment storage not configured");
}

#[test]
fn file_names_are_sanitised() {
    assert_eq!(sanitize_filename("report.pdf"), "report.pdf");
    assert_eq!(sanitize_filename("my file (1).txt"), "myfile1.txt");
    assert_eq!(sanitize_filename("../../etc/passwd"), "....etcpasswd");
    assert_eq!(sanitize_filename("a\\b\0c"), "abc");
    assert_eq!(sanitize_filename("日本語_ß-2.txt"), "日本語_ß-2.txt");
    assert_eq!(sanitize_filename(""), "file");
    assert_eq!(sanitize_filename("/// ?"), "file");
}

#[test]
fn key_layout() {
    let key = attachment_key("my photo.jpg", 1_700_000_000_123, &[0x00, 0x01, 0xab, 0xff, 0x10, 0x7f, 0x80, 0x09]);
    assert_eq!(key, "1700000000123-0001abff107f8009/myphoto.jpg");
    assert_eq!(attachment_key("", 0, &[]), "0-/file");
}

#[test]
fn generated_keys_are_fresh() {
    let a = generate_attachment_key("x.png", 42).unwrap();
    let b = generate_attachment_key("x.png", 42).unwrap();
    assert!(a.starts_with("42-"));
    assert!(a.ends_with("/x.png"));
    assert_eq!(a.len(), "42-".len() + 16 + "/x.png".len());
    assert!(a[3..19].chars().all(|c| c.is_ascii_hexdigit() && !c.is_ascii_uppercase()));
    assert_ne!(a, b);
    assert_eq!(check_attachment_key(&a), Ok(()));
    assert_eq!(download_filename(&a), "x.png");
}

#[test]
fn dot_dot_names_give_keys_that_downloads_refuse() {
    let key = attachment_key("..", 5, &[1]);
    assert_eq!(key, "5-01/..");
    assert_eq!(check_attachment_key(&key), Err(ApiError::InvalidKey));
}

#[test]
fn key_checks() {
    assert_eq!(check_attachment_key(""), Err(ApiError::InvalidKey));
    assert_eq!(check_attachment_key("/etc/passwd"), Err(ApiError::InvalidKey));
    assert_eq!(check_attachment_key("a/../b"), Err(ApiError::InvalidKey));
    assert_eq!(check_attachment_key("a..b"), Err(ApiError::InvalidKey));
    assert_eq!(check_attachment_key("a\0b"), Err(ApiError::InvalidKey));
    assert_eq!(check_attachment_key("a/./b"), Ok(()));
    assert_eq!(check_attachment_key("1-ab/f.txt"), Ok(()));
    assert_eq!(ApiError::InvalidKey.status(), 400);
    assert_eq!(ApiError::InvalidKey.message(), "Invalid key");
}

#[test]
fn download_headers() {
    assert_eq!(download_filename("1-ab/report.pdf"), "report.pdf");
    assert_eq!(download_filename("noslash"), "noslash");
    assert_eq!(download_filename("a/b/"), "");
    assert_eq!(content_disposition("1-ab/report.pdf"), "attachment; filename=\"report.pdf\"");
    assert_eq!(content_type_or_default(None), "application/octet-stream");
    assert_eq!(content_type_or_default(Some("image/png".to_string())), "image/png");
    assert_eq!(ApiError::FileNotFound.status(), 404);
    assert_eq!(ApiError::FileNotFound.message(), "File not found");
    assert_eq!(ApiError::FileNotAvailable.message(), "File not available");
}
