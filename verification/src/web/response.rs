//! How failures are sorted and what the boundary answers to each.
//!
//! Every failure has a kind, and every failure has a status of its own
//! choosing within that kind. No failure maps to success.

use crate::model::StoreError;
use crate::token::TokenError;
use crate::web::auth::error::{AuthError, AuthErrorView};
use crate::web::data::{MalformedInput, ValidationError};
use crate::web::newsletter::DispatchError;
use crate::web::subscriptions::SubscribeError;
use vstd::prelude::*;

verus! {

/// The status of a request that succeeded.
pub const OK: u16 = 200;

/// The status of a request whose data broke a rule.
pub const BAD_REQUEST: u16 = 400;

/// The status of a request that needs an operator and named none, or the
/// wrong one.
pub const UNAUTHORIZED: u16 = 401;

/// The status of a request for something that is not there.
pub const NOT_FOUND: u16 = 404;

/// The status of a request that lacks a required field.
pub const UNPROCESSABLE_ENTITY: u16 = 422;

/// The status of a request that failed through no fault of the caller.
pub const INTERNAL_SERVER_ERROR: u16 = 500;

/// The four kinds of failure.
#[derive(Debug, Clone, Copy, PartialEq, Eq, Structural)]
pub enum ErrorKind {
    /// The caller sent something unusable. Never retried.
    ClientInput,
    /// The caller is not an operator, or did not say who they are.
    Auth,
    /// The store failed. A fault of the server.
    Store,
    /// The email transport failed. A fault of the server.
    Transport,
}

/// The status for a kind of failure, where the failure itself names no other.
pub open spec fn kind_status(kind: ErrorKind) -> u16 {
    match kind {
        ErrorKind::ClientInput => BAD_REQUEST,
        ErrorKind::Auth => UNAUTHORIZED,
        ErrorKind::Store => INTERNAL_SERVER_ERROR,
        ErrorKind::Transport => INTERNAL_SERVER_ERROR,
    }
}

/// The kind of a failure of the guard: a missing header and credentials that
/// match no operator are failures of authentication, a failing store is the
/// store's, and a header that cannot be read is unusable input.
pub open spec fn auth_kind(e: AuthErrorView) -> ErrorKind {
    match e {
        AuthErrorView::MissingAuthHeader => ErrorKind::Auth,
        AuthErrorView::InvalidLoginParams(_) => ErrorKind::Auth,
        AuthErrorView::Sqlx(_) => ErrorKind::Store,
        AuthErrorView::InvalidUtf(_) => ErrorKind::ClientInput,
        AuthErrorView::MissingColon => ErrorKind::ClientInput,
        AuthErrorView::WrongAuthSchema(_) => ErrorKind::ClientInput,
        AuthErrorView::Base64Decode(_) => ErrorKind::ClientInput,
    }
}

/// The kind of a failure to resolve a token.
pub open spec fn token_kind(e: TokenError) -> ErrorKind {
    match e {
        TokenError::TokenNotFound => ErrorKind::ClientInput,
        TokenError::Store(_) => ErrorKind::Store,
    }
}

/// The status of a failure to resolve a token: an unknown token is not found.
pub open spec fn token_status(e: TokenError) -> u16 {
    match e {
        TokenError::TokenNotFound => NOT_FOUND,
        TokenError::Store(_) => INTERNAL_SERVER_ERROR,
    }
}

/// The kind of a failed subscription.
pub open spec fn subscribe_kind(e: SubscribeError) -> ErrorKind {
    match e {
        SubscribeError::Validation(_) => ErrorKind::ClientInput,
        SubscribeError::Store(_) => ErrorKind::Store,
        SubscribeError::Transport(_) => ErrorKind::Transport,
    }
}

impl MalformedInput {
    /// A missing field is unusable input.
    pub fn kind(&self) -> (kind: ErrorKind)
        ensures
            kind == ErrorKind::ClientInput,
    {
        ErrorKind::ClientInput
    }

    /// A missing field is answered with [`UNPROCESSABLE_ENTITY`].
    pub fn status(&self) -> (status: u16)
        ensures
            status == UNPROCESSABLE_ENTITY,
    {
        UNPROCESSABLE_ENTITY
    }
}

impl ValidationError {
    /// Data that breaks a rule is unusable input.
    pub fn kind(&self) -> (kind: ErrorKind)
        ensures
            kind == ErrorKind::ClientInput,
    {
        ErrorKind::ClientInput
    }

    /// Data that breaks a rule is answered with [`BAD_REQUEST`].
    pub fn status(&self) -> (status: u16)
        ensures
            status == BAD_REQUEST,
    {
        BAD_REQUEST
    }
}

impl StoreError {
    /// A failure of the store is the store's.
    pub fn kind(&self) -> (kind: ErrorKind)
        ensures
            kind == ErrorKind::Store,
    {
        ErrorKind::Store
    }

    /// A failure of the store is answered with [`INTERNAL_SERVER_ERROR`].
    pub fn status(&self) -> (status: u16)
        ensures
            status == INTERNAL_SERVER_ERROR,
    {
        INTERNAL_SERVER_ERROR
    }
}

impl AuthError {
    /// The kind of this failure of the guard.
    pub fn kind(&self) -> (kind: ErrorKind)
        ensures
            kind == auth_kind(self@),
    {
        match self {
            AuthError::MissingAuthHeader => ErrorKind::Auth,
            AuthError::InvalidLoginParams(_) => ErrorKind::Auth,
            AuthError::Sqlx(_) => ErrorKind::Store,
            AuthError::InvalidUtf(_) => ErrorKind::ClientInput,
            AuthError::MissingColon => ErrorKind::ClientInput,
            AuthError::WrongAuthSchema(_) => ErrorKind::ClientInput,
            AuthError::Base64Decode(_) => ErrorKind::ClientInput,
        }
    }

    /// The status of this failure of the guard: that of its kind.
    pub fn status(&self) -> (status: u16)
        ensures
            status == kind_status(auth_kind(self@)),
    {
        match self.kind() {
            ErrorKind::ClientInput => BAD_REQUEST,
            ErrorKind::Auth => UNAUTHORIZED,
            ErrorKind::Store => INTERNAL_SERVER_ERROR,
            ErrorKind::Transport => INTERNAL_SERVER_ERROR,
        }
    }
}

impl TokenError {
    /// The kind of this failure.
    pub fn kind(&self) -> (kind: ErrorKind)
        ensures
            kind == token_kind(*self),
    {
        match self {
            TokenError::TokenNotFound => ErrorKind::ClientInput,
            TokenError::Store(_) => ErrorKind::Store,
        }
    }

    /// The status of this failure.
    pub fn status(&self) -> (status: u16)
        ensures
            status == token_status(*self),
    {
        match self {
            TokenError::TokenNotFound => NOT_FOUND,
            TokenError::Store(_) => INTERNAL_SERVER_ERROR,
        }
    }
}

impl SubscribeError {
    /// The kind of this failure.
    pub fn kind(&self) -> (kind: ErrorKind)
        ensures
            kind == subscribe_kind(*self),
    {
        match self {
            SubscribeError::Validation(_) => ErrorKind::ClientInput,
            SubscribeError::Store(_) => ErrorKind::Store,
            SubscribeError::Transport(_) => ErrorKind::Transport,
        }
    }

    /// The status of this failure: that of its kind.
    pub fn status(&self) -> (status: u16)
        ensures
            status == kind_status(subscribe_kind(*self)),
    {
        match self {
            SubscribeError::Validation(_) => BAD_REQUEST,
            SubscribeError::Store(_) => INTERNAL_SERVER_ERROR,
            SubscribeError::Transport(_) => INTERNAL_SERVER_ERROR,
        }
    }
}

impl DispatchError {
    /// The kind of this failure: the guard's own, or the transport's.
    pub fn kind(&self) -> (kind: ErrorKind)
        ensures
            kind == (match self {
                DispatchError::Auth(e) => auth_kind(e@),
                DispatchError::Delivery(_) => ErrorKind::Transport,
            }),
    {
        match self {
            DispatchError::Auth(e) => e.kind(),
            DispatchError::Delivery(_) => ErrorKind::Transport,
        }
    }

    /// The status of this failure: that of its kind.
    pub fn status(&self) -> (status: u16)
        ensures
            status == (match self {
                DispatchError::Auth(e) => kind_status(auth_kind(e@)),
                DispatchError::Delivery(_) => INTERNAL_SERVER_ERROR,
            }),
    {
        match self {
            DispatchError::Auth(e) => e.status(),
            DispatchError::Delivery(_) => INTERNAL_SERVER_ERROR,
        }
    }
}

} // verus!
