use crate::model::StoreError;
use crate::text::concat;
use crate::utils::B64DecodeError;
use vstd::prelude::*;
use vstd::string::*;

verus! {

/// Why a request was not let through the guard.
#[derive(Debug)]
pub enum AuthError {
    /// The credentials do not match a stored operator; the text says how.
    InvalidLoginParams(String),
    /// The request has no `Authorization` header.
    MissingAuthHeader,
    /// Bytes that should be text are not UTF-8; the text says which.
    InvalidUtf(String),
    /// The decoded credentials hold no colon.
    MissingColon,
    /// The header names another scheme; the text is the scheme expected.
    WrongAuthSchema(String),
    /// The store failed while the operator was looked up.
    Sqlx(StoreError),
    /// The credentials are not base64.
    Base64Decode(B64DecodeError),
}

/// An [`AuthError`] with its texts as sequences of characters.
pub enum AuthErrorView {
    InvalidLoginParams(Seq<char>),
    MissingAuthHeader,
    InvalidUtf(Seq<char>),
    MissingColon,
    WrongAuthSchema(Seq<char>),
    Sqlx(StoreError),
    Base64Decode(B64DecodeError),
}

impl AuthErrorView {
    /// The message for this error.
    pub open spec fn message(self) -> Seq<char> {
        match self {
            AuthErrorView::InvalidLoginParams(why) => "the user doesn't have authorization: "@
                + why,
            AuthErrorView::MissingAuthHeader => "header 'Authorization' is missing from the request"@,
            AuthErrorView::InvalidUtf(what) => "got invalid utf-8 in 'Authorization' header: "@
                + what,
            AuthErrorView::MissingColon => "missing colon in 'Authorization' header - can't split username and password"@,
            AuthErrorView::WrongAuthSchema(expected) => "received the wrong authentication schema. expected: "@
                + expected,
            AuthErrorView::Sqlx(e) => "sqlx error: "@ + e.text(),
            AuthErrorView::Base64Decode(e) => "base64 decoding error: "@ + e.text(),
        }
    }
}

impl View for AuthError {
    type V = AuthErrorView;

    open spec fn view(&self) -> AuthErrorView {
        match self {
            AuthError::InvalidLoginParams(why) => AuthErrorView::InvalidLoginParams(why@),
            AuthError::MissingAuthHeader => AuthErrorView::MissingAuthHeader,
            AuthError::InvalidUtf(what) => AuthErrorView::InvalidUtf(what@),
            AuthError::MissingColon => AuthErrorView::MissingColon,
            AuthError::WrongAuthSchema(expected) => AuthErrorView::WrongAuthSchema(expected@),
            AuthError::Sqlx(e) => AuthErrorView::Sqlx(*e),
            AuthError::Base64Decode(e) => AuthErrorView::Base64Decode(*e),
        }
    }
}

impl AuthError {
    /// The message for this error. It never holds a password.
    pub fn message(&self) -> (text: String)
        ensures
            text@ == self@.message(),
    {
        match self {
            AuthError::InvalidLoginParams(why) => concat(
                "the user doesn't have authorization: ",
                why.as_str(),
            ),
            AuthError::MissingAuthHeader => "header 'Authorization' is missing from the request".to_owned(),
            AuthError::InvalidUtf(what) => concat(
                "got invalid utf-8 in 'Authorization' header: ",
                what.as_str(),
            ),
            AuthError::MissingColon => "missing colon in 'Authorization' header - can't split username and password".to_owned(),
            AuthError::WrongAuthSchema(expected) => concat(
                "received the wrong authentication schema. expected: ",
                expected.as_str(),
            ),
            AuthError::Sqlx(e) => concat("sqlx error: ", e.message()),
            AuthError::Base64Decode(e) => concat("base64 decoding error: ", e.message()),
        }
    }
}

} // verus!
