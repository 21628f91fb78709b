//! The errors the API answers with, and how a stored flag is read.

use vstd::prelude::*;

verus! {

/// An error answered to the client, with its HTTP status and message.
#[derive(Debug, Clone, Copy, PartialEq, Eq, Structural)]
pub enum ApiError {
    Unauthorized,
    NotFound,
    InvalidMessageId,
    InvalidRequestBody,
    NameRequired,
    NameTooLong,
    ContentRequired,
    ContentTooLong,
    EmailTooLong,
    StorageNotConfigured,
    NoFileProvided,
    EmptyFile,
    FileTooLarge,
    InvalidKey,
    FileNotAvailable,
    FileNotFound,
    AdminNotConfigured,
    ServerConfiguration,
    InvalidCredentials,
}

/// The HTTP status answered for an error.
pub open spec fn status_of(e: ApiError) -> u16 {
    match e {
        ApiError::Unauthorized => 401,
        ApiError::NotFound => 404,
        ApiError::InvalidMessageId => 400,
        ApiError::InvalidRequestBody => 400,
        ApiError::NameRequired => 400,
        ApiError::NameTooLong => 400,
        ApiError::ContentRequired => 400,
        ApiError::ContentTooLong => 400,
        ApiError::EmailTooLong => 400,
        ApiError::StorageNotConfigured => 503,
        ApiError::NoFileProvided => 400,
        ApiError::EmptyFile => 400,
        ApiError::FileTooLarge => 413,
        ApiError::InvalidKey => 400,
        ApiError::FileNotAvailable => 404,
        ApiError::FileNotFound => 404,
        ApiError::AdminNotConfigured => 500,
        ApiError::ServerConfiguration => 500,
        ApiError::InvalidCredentials => 401,
    }
}

/// The message answered for an error.
pub open spec fn message_of(e: ApiError) -> Seq<char> {
    match e {
        ApiError::Unauthorized => "Unauthorized"@,
        ApiError::NotFound => "Not found"@,
        ApiError::InvalidMessageId => "Invalid message ID"@,
        ApiError::InvalidRequestBody => "Invalid request body"@,
        ApiError::NameRequired => "Name is required"@,
        ApiError::NameTooLong => "Name must be 100 characters or fewer"@,
        ApiError::ContentRequired => "Content is required"@,
        ApiError::ContentTooLong => "Content must be 2000 characters or fewer"@,
        ApiError::EmailTooLong => "Email must be 200 characters or fewer"@,
        ApiError::StorageNotConfigured => "Attachment storage not configured"@,
        ApiError::NoFileProvided => "No file provided"@,
        ApiError::EmptyFile => "Empty file"@,
        ApiError::FileTooLarge => "File exceeds 25 MB limit"@,
        ApiError::InvalidKey => "Invalid key"@,
        ApiError::FileNotAvailable => "File not available"@,
        ApiError::FileNotFound => "File not found"@,
        ApiError::AdminNotConfigured => "Admin not configured"@,
        ApiError::ServerConfiguration => "Server configuration error"@,
        ApiError::InvalidCredentials => "Invalid credentials"@,
    }
}

impl ApiError {
    /// The HTTP status of this error.
    pub fn status(&self) -> (s: u16)
        ensures
            s == status_of(*self),
    {
        match self {
            ApiError::Unauthorized => 401,
            ApiError::NotFound => 404,
            ApiError::InvalidMessageId => 400,
            ApiError::InvalidRequestBody => 400,
            ApiError::NameRequired => 400,
            ApiError::NameTooLong => 400,
            ApiError::ContentRequired => 400,
            ApiError::ContentTooLong => 400,
            ApiError::EmailTooLong => 400,
            ApiError::StorageNotConfigured => 503,
            ApiError::NoFileProvided => 400,
            ApiError::EmptyFile => 400,
            ApiError::FileTooLarge => 413,
            ApiError::InvalidKey => 400,
            ApiError::FileNotAvailable => 404,
            ApiError::FileNotFound => 404,
            ApiError::AdminNotConfigured => 500,
            ApiError::ServerConfiguration => 500,
            ApiError::InvalidCredentials => 401,
        }
    }

    /// The message of this error, as the client sees it.
    pub fn message(&self) -> (m: String)
        ensures
            m@ == message_of(*self),
    {
        let text: &str = match self {
            ApiError::Unauthorized => "Unauthorized",
            ApiError::NotFound => "Not found",
            ApiError::InvalidMessageId => "Invalid message ID",
            ApiError::InvalidRequestBody => "Invalid request body",
            ApiError::NameRequired => "Name is required",
            ApiError::NameTooLong => "Name must be 100 characters or fewer",
            ApiError::ContentRequired => "Content is required",
            ApiError::ContentTooLong => "Content must be 2000 characters or fewer",
            ApiError::EmailTooLong => "Email must be 200 characters or fewer",
            ApiError::StorageNotConfigured => "Attachment storage not configured",
            ApiError::NoFileProvided => "No file provided",
            ApiError::EmptyFile => "Empty file",
            ApiError::FileTooLarge => "File exceeds 25 MB limit",
            ApiError::InvalidKey => "Invalid key",
            ApiError::FileNotAvailable => "File not available",
            ApiError::FileNotFound => "File not found",
            ApiError::AdminNotConfigured => "Admin not configured",
            ApiError::ServerConfiguration => "Server configuration error",
            ApiError::InvalidCredentials => "Invalid credentials",
        };
        text.to_owned()
    }
}

/// A value stored for the `approved` flag: a JSON boolean, or an integer as
/// SQLite stores booleans.
#[derive(Debug, Clone, Copy, PartialEq, Eq, Structural)]
pub enum FlagValue {
    Bool(bool),
    Int(i64),
    UInt(u64),
}

/// The boolean a stored flag stands for: a boolean as it is, an integer true
/// exactly when it is not zero.
pub open spec fn flag_spec(v: FlagValue) -> bool {
    match v {
        FlagValue::Bool(b) => b,
        FlagValue::Int(i) => i != 0,
        FlagValue::UInt(u) => u != 0,
    }
}

/// Reads a stored flag as a boolean (booleans and 0/1 integers are accepted).
pub fn bool_from_int_or_bool(v: FlagValue) -> (b: bool)
    ensures
        b == flag_spec(v),
{
    match v {
        FlagValue::Bool(b) => b,
        FlagValue::Int(i) => i != 0,
        FlagValue::UInt(u) => u != 0,
    }
}

} // verus!
