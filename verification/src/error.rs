//! Error taxonomy of the core and the caller-facing message catalogue.
//!
//! Repository operations fail with a [`RepoError`]; the collaborating web
//! layer maps those onto wire messages.  [`ErrorMessage`] and [`HttpError`]
//! carry that mapping: the HTTP status is held as its plain numeric code,
//! the transport object around it belongs to the web layer.

use vstd::prelude::*;
use vstd::string::StringExecFns;
use crate::strutil::dec_seq;
use crate::strutil::u64_to_dec;

verus! {

/// What a repository operation can report.
///
/// `NotFound` also covers the deliberately indistinguishable outcomes of a
/// shared-link lookup (absent, wrong recipient, expired).  `TransientStore`
/// and `InvariantViolation` belong to the interface towards the web layer:
/// the verified store itself is proved never to produce them.
#[derive(Debug, PartialEq, Eq, Structural, Clone, Copy)]
pub enum RepoError {
    NotFound,
    UniqueConstraintViolation,
    TransientStore,
    InvariantViolation,
}

/// Wire shape of a failure report.
#[derive(Debug)]
pub struct ErrorResponse {
    pub status: String,
    pub message: String,
}

/// Caller-facing message identifiers of the auth and account flows.
#[derive(Debug, PartialEq, Eq, Structural)]
pub enum ErrorMessage {
    EmptyPassword,
    ExceededMaxPasswordLength(usize),
    InvalidHashFormat,
    HashingError,
    InvalidToken,
    InvalidCredentials,
    EmailExist,
    UserNoLongerExist,
    TokenNotProvided,
}

/// The text that [`ErrorMessage::to_str`] renders.
pub open spec fn message_text(m: ErrorMessage) -> Seq<char> {
    match m {
        ErrorMessage::EmptyPassword => "Password cannot be empty"@,
        ErrorMessage::ExceededMaxPasswordLength(n) => "Password length must not be more than "@
            + dec_seq(n as nat),
        ErrorMessage::InvalidHashFormat => "Invalid password hash format"@,
        ErrorMessage::HashingError => "Error while hashing password"@,
        ErrorMessage::InvalidToken => "Authentication token is invalid or expired"@,
        ErrorMessage::InvalidCredentials => "Email or password is wrong"@,
        ErrorMessage::EmailExist => "User with this email already exists"@,
        ErrorMessage::UserNoLongerExist => "User no longer exists"@,
        ErrorMessage::TokenNotProvided => "You are not logged in, please provide a token"@,
    }
}

impl ErrorMessage {
    /// Renders the message, including the numeric bound of
    /// `ExceededMaxPasswordLength`.
    pub fn to_str(&self) -> (s: String)
        ensures
            s@ == message_text(*self),
    {
        match self {
            ErrorMessage::EmptyPassword => String::from_str("Password cannot be empty"),
            ErrorMessage::ExceededMaxPasswordLength(max_length) => {
                let mut s = String::from_str("Password length must not be more than ");
                let digits = u64_to_dec(*max_length as u64);
                s.append(digits.as_str());
                s
            },
            ErrorMessage::InvalidHashFormat => String::from_str("Invalid password hash format"),
            ErrorMessage::HashingError => String::from_str("Error while hashing password"),
            ErrorMessage::InvalidToken => String::from_str(
                "Authentication token is invalid or expired",
            ),
            ErrorMessage::InvalidCredentials => String::from_str("Email or password is wrong"),
            ErrorMessage::EmailExist => String::from_str("User with this email already exists"),
            ErrorMessage::UserNoLongerExist => String::from_str("User no longer exists"),
            ErrorMessage::TokenNotProvided => String::from_str(
                "You are not logged in, please provide a token",
            ),
        }
    }
}

/// HTTP status code 500.
pub const STATUS_INTERNAL_SERVER_ERROR: u16 = 500;

/// HTTP status code 400.
pub const STATUS_BAD_REQUEST: u16 = 400;

/// HTTP status code 409.
pub const STATUS_CONFLICT: u16 = 409;

/// HTTP status code 401.
pub const STATUS_UNAUTHORIZED: u16 = 401;

/// A failure as the web layer reports it: a message and a numeric HTTP
/// status code.  Turning it into a transport response is the web layer's
/// business.
#[derive(Debug, Clone)]
pub struct HttpError {
    pub message: String,
    pub status: u16,
}

impl HttpError {
    pub fn new(message: String, status: u16) -> (r: Self)
        ensures
            r.message == message,
            r.status == status,
    {
        HttpError { message, status }
    }

    pub fn server_error(message: String) -> (r: Self)
        ensures
            r.message == message,
            r.status == STATUS_INTERNAL_SERVER_ERROR,
    {
        HttpError { message, status: STATUS_INTERNAL_SERVER_ERROR }
    }

    pub fn bad_request(message: String) -> (r: Self)
        ensures
            r.message == message,
            r.status == STATUS_BAD_REQUEST,
    {
        HttpError { message, status: STATUS_BAD_REQUEST }
    }

    pub fn unique_constraint_violation(message: String) -> (r: Self)
        ensures
            r.message == message,
            r.status == STATUS_CONFLICT,
    {
        HttpError { message, status: STATUS_CONFLICT }
    }

    pub fn unauthorized(message: String) -> (r: Self)
        ensures
            r.message == message,
            r.status == STATUS_UNAUTHORIZED,
    {
        HttpError { message, status: STATUS_UNAUTHORIZED }
    }
}

} // verus!
