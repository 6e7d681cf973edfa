//! Data-transfer shapes exchanged with the request-handling layer, and
//! the verified projections from stored rows onto them.
//!
//! The shapes carry plain values only; identifiers travel as their
//! decimal rendering.  Validation attributes and serialization live in
//! the web layer, which owns the wire format.

use vstd::prelude::*;
use vstd::string::StringExecFns;
use crate::model::ReceiveFileDetails;
use crate::model::SendFileDetails;
use crate::model::User;
use crate::strutil::dec_seq;
use crate::strutil::u64_to_dec;

verus! {

/// Registration request: username, email, password and its confirmation.
#[derive(Debug, Clone)]
pub struct RegisterUserDto {
    pub username: String,
    pub email: String,
    pub password: String,
    pub password_confirm: String,
}

/// Login request.
#[derive(Debug, Clone)]
pub struct LoginUserDto {
    pub email: String,
    pub password: String,
}

/// Pagination request: 1-indexed page and page size, both optional.
/// The calling layer enforces `page >= 1` and `1 <= limit <= 50`.
#[derive(Debug, Clone)]
pub struct RequestQueryDto {
    pub page: Option<usize>,
    pub limit: Option<usize>,
}

/// A user as shown to callers: no credential, id in decimal.
#[derive(Debug)]
pub struct FilterUserDto {
    pub id: String,
    pub username: String,
    pub email: String,
    pub public_key: Option<String>,
    pub created_at: i64,
    pub updated_at: i64,
}

/// Whether `d` is the caller-facing projection of user `u`.
pub open spec fn user_dto_matches(d: FilterUserDto, u: User) -> bool {
    &&& d.id@ == dec_seq(u.id as nat)
    &&& d.username == u.username
    &&& d.email == u.email
    &&& d.public_key == u.public_key
    &&& d.created_at == u.created_at
    &&& d.updated_at == u.updated_at
}

impl FilterUserDto {
    /// Projects a stored user onto the caller-facing shape.
    pub fn filter_user(user: &User) -> (r: Self)
        ensures
            user_dto_matches(r, *user),
    {
        let public_key = match &user.public_key {
            Some(k) => Some(k.clone()),
            None => None,
        };
        FilterUserDto {
            id: u64_to_dec(user.id),
            username: user.username.clone(),
            email: user.email.clone(),
            public_key,
            created_at: user.created_at,
            updated_at: user.updated_at,
        }
    }
}

/// Envelope around one user.
#[derive(Debug)]
pub struct UserData {
    pub user: FilterUserDto,
}

/// Envelope around one user plus a status word.
#[derive(Debug)]
pub struct UserResponseDto {
    pub status: String,
    pub data: UserData,
}

/// One sent-listing row as shown to callers: ids in decimal.
#[derive(Debug)]
pub struct UserSendFileDto {
    pub file_id: String,
    pub file_name: String,
    pub recipient_email: String,
    pub expiration_date: i64,
    pub created_at: i64,
}

/// Whether `d` is the caller-facing projection of sent-listing row `s`.
pub open spec fn send_dto_matches(d: UserSendFileDto, s: SendFileDetails) -> bool {
    &&& d.file_id@ == dec_seq(s.file_id as nat)
    &&& d.file_name == s.file_name
    &&& d.recipient_email == s.recipient_email
    &&& d.expiration_date == s.expiration_date
    &&& d.created_at == s.created_at
}

impl UserSendFileDto {
    /// Projects one sent-listing row.
    pub fn filter_send_user_file(file_data: &SendFileDetails) -> (r: Self)
        ensures
            send_dto_matches(r, *file_data),
    {
        UserSendFileDto {
            file_id: u64_to_dec(file_data.file_id),
            file_name: file_data.file_name.clone(),
            recipient_email: file_data.recipient_email.clone(),
            expiration_date: file_data.expiration_date,
            created_at: file_data.created_at,
        }
    }

    /// Projects a whole sent-listing page, in order.
    pub fn filter_send_user_files(user: &Vec<SendFileDetails>) -> (r: Vec<UserSendFileDto>)
        ensures
            r@.len() == user@.len(),
            forall|i: int| 0 <= i < r@.len() ==> send_dto_matches(#[trigger] r@[i], user@[i]),
    {
        let mut r: Vec<UserSendFileDto> = Vec::new();
        let mut i: usize = 0;
        while i < user.len()
            invariant
                i <= user@.len(),
                r@.len() == i,
                forall|k: int| 0 <= k < i ==> send_dto_matches(#[trigger] r@[k], user@[k]),
            decreases user@.len() - i,
        {
            r.push(Self::filter_send_user_file(&user[i]));
            i = i + 1;
        }
        r
    }
}

/// A sent-listing page with its status word and total row count.
#[derive(Debug)]
pub struct UserSendFileListResponseDto {
    pub status: String,
    pub files: Vec<UserSendFileDto>,
    pub results: usize,
}

/// One received-listing row as shown to callers; `file_id` carries the
/// shared-link id in decimal.
#[derive(Debug)]
pub struct UserReceiveFileDto {
    pub file_id: String,
    pub file_name: String,
    pub sender_email: String,
    pub expiration_date: i64,
    pub created_at: i64,
}

/// Whether `d` is the caller-facing projection of received-listing row `s`.
pub open spec fn recv_dto_matches(d: UserReceiveFileDto, s: ReceiveFileDetails) -> bool {
    &&& d.file_id@ == dec_seq(s.file_id as nat)
    &&& d.file_name == s.file_name
    &&& d.sender_email == s.sender_email
    &&& d.expiration_date == s.expiration_date
    &&& d.created_at == s.created_at
}

impl UserReceiveFileDto {
    /// Projects one received-listing row.
    pub fn filter_receive_user_file(file_data: &ReceiveFileDetails) -> (r: Self)
        ensures
            recv_dto_matches(r, *file_data),
    {
        UserReceiveFileDto {
            file_id: u64_to_dec(file_data.file_id),
            file_name: file_data.file_name.clone(),
            sender_email: file_data.sender_email.clone(),
            expiration_date: file_data.expiration_date,
            created_at: file_data.created_at,
        }
    }

    /// Projects a whole received-listing page, in order.
    pub fn filter_receive_user_files(user: &Vec<ReceiveFileDetails>) -> (r: Vec<
        UserReceiveFileDto,
    >)
        ensures
            r@.len() == user@.len(),
            forall|i: int| 0 <= i < r@.len() ==> recv_dto_matches(#[trigger] r@[i], user@[i]),
    {
        let mut r: Vec<UserReceiveFileDto> = Vec::new();
        let mut i: usize = 0;
        while i < user.len()
            invariant
                i <= user@.len(),
                r@.len() == i,
                forall|k: int| 0 <= k < i ==> recv_dto_matches(#[trigger] r@[k], user@[k]),
            decreases user@.len() - i,
        {
            r.push(Self::filter_receive_user_file(&user[i]));
            i = i + 1;
        }
        r
    }
}

/// A received-listing page with its status word and total row count.
#[derive(Debug)]
pub struct UserReceiveFileListResponseDto {
    pub status: String,
    pub files: Vec<UserReceiveFileDto>,
    pub results: usize,
}

/// Login response: a status word and the issued token.
#[derive(Debug)]
pub struct UserLoginResponseDto {
    pub status: String,
    pub token: String,
}

/// Generic status-and-message response.
pub struct Response {
    pub status: &'static str,
    pub message: String,
}

/// Username-change request.
#[derive(Debug, Clone)]
pub struct NameUpdateDto {
    pub username: String,
}

/// Password-change request: the new password twice, and the old one.
#[derive(Debug, Clone)]
pub struct UserPasswordUpdateDto {
    pub new_password: String,
    pub new_password_confirm: String,
    pub old_password: String,
}

/// Contact-search request: a `LIKE` pattern over emails.
#[allow(non_camel_case_types)]
#[derive(Debug, Clone)]
pub struct searchQueryByEmailDto {
    pub query: String,
}

/// One discoverable contact: just the email.
#[derive(Debug)]
pub struct FilterEmailDto {
    pub email: String,
}

impl FilterEmailDto {
    /// Projects a user onto its discoverable email.
    pub fn filter_email(user: &User) -> (r: Self)
        ensures
            r.email == user.email,
    {
        FilterEmailDto { email: user.email.clone() }
    }

    /// Projects a search result, in order.
    pub fn filter_emails(user: &Vec<User>) -> (r: Vec<FilterEmailDto>)
        ensures
            r@.len() == user@.len(),
            forall|i: int| 0 <= i < r@.len() ==> (#[trigger] r@[i]).email == user@[i].email,
    {
        let mut r: Vec<FilterEmailDto> = Vec::new();
        let mut i: usize = 0;
        while i < user.len()
            invariant
                i <= user@.len(),
                r@.len() == i,
                forall|k: int| 0 <= k < i ==> (#[trigger] r@[k]).email == user@[k].email,
            decreases user@.len() - i,
        {
            r.push(Self::filter_email(&user[i]));
            i = i + 1;
        }
        r
    }
}

/// A contact-search response: a status word and the matching emails.
#[derive(Debug)]
pub struct EmailListResponseDto {
    pub status: String,
    pub emails: Vec<FilterEmailDto>,
}

/// Upload request: the recipient, the link password, and the expiration
/// instant as an RFC 3339 string.
#[derive(Debug, Clone)]
pub struct FileUploadDtos {
    pub recipient_email: String,
    pub password: String,
    pub expiration_date: String,
}

/// Retrieval request: the shared-link id and the link password.
#[derive(Debug, Clone)]
pub struct RetriveFileDto {
    pub shared_id: String,
    pub password: String,
}

} // verus!
