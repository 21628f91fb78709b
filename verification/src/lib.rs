//! The request-handling logic of a guestbook service with an admin panel:
//! routing, message validation, attachment keys and HMAC-signed admin tokens.

pub mod api;
pub mod attachments;
pub mod auth;
pub mod codec;
pub mod crypto;
pub mod jwt;
pub mod messages;
pub mod routing;
pub mod text;
