use crate::text::{debug_quoted, debug_text, join};
use vstd::prelude::*;
use vstd::string::*;

verus! {

/// Why a request was not admitted.
#[derive(Debug, PartialEq, Eq)]
pub enum AuthError {
    InvalidApiKey,
    MissingApiKey,
    KeyExpired,
    KeySuspended,
    InsufficientPermissions,
    RateLimitExceeded,
    StorageError(String),
}

/// The mathematical view of an `AuthError`: texts are sequences of characters,
/// vectors are sequences.
pub enum AuthErrorView {
    InvalidApiKey,
    MissingApiKey,
    KeyExpired,
    KeySuspended,
    InsufficientPermissions,
    RateLimitExceeded,
    StorageError(Seq<char>),
}

impl AuthErrorView {
    /// The printed form: the variant's name, and for a storage error the
    /// message in quoted form between brackets.
    pub open spec fn text(self) -> Seq<char> {
        match self {
            AuthErrorView::InvalidApiKey => "InvalidApiKey"@,
            AuthErrorView::MissingApiKey => "MissingApiKey"@,
            AuthErrorView::KeyExpired => "KeyExpired"@,
            AuthErrorView::KeySuspended => "KeySuspended"@,
            AuthErrorView::InsufficientPermissions => "InsufficientPermissions"@,
            AuthErrorView::RateLimitExceeded => "RateLimitExceeded"@,
            AuthErrorView::StorageError(m) => "StorageError("@ + debug_text(m) + ")"@,
        }
    }
}

impl DeepView for AuthError {
    type V = AuthErrorView;

    open spec fn deep_view(&self) -> AuthErrorView {
        match self {
            AuthError::InvalidApiKey => AuthErrorView::InvalidApiKey,
            AuthError::MissingApiKey => AuthErrorView::MissingApiKey,
            AuthError::KeyExpired => AuthErrorView::KeyExpired,
            AuthError::KeySuspended => AuthErrorView::KeySuspended,
            AuthError::InsufficientPermissions => AuthErrorView::InsufficientPermissions,
            AuthError::RateLimitExceeded => AuthErrorView::RateLimitExceeded,
            AuthError::StorageError(m) => AuthErrorView::StorageError(m@),
        }
    }
}

impl View for AuthError {
    type V = AuthErrorView;

    open spec fn view(&self) -> AuthErrorView {
        self.deep_view()
    }
}

impl AuthError {
    /// Prints the error.
    pub fn to_string(&self) -> (r: String)
        ensures
            r@ == self@.text(),
    {
        match self {
            AuthError::InvalidApiKey => String::from_str("InvalidApiKey"),
            AuthError::MissingApiKey => String::from_str("MissingApiKey"),
            AuthError::KeyExpired => String::from_str("KeyExpired"),
            AuthError::KeySuspended => String::from_str("KeySuspended"),
            AuthError::InsufficientPermissions => String::from_str("InsufficientPermissions"),
            AuthError::RateLimitExceeded => String::from_str("RateLimitExceeded"),
            AuthError::StorageError(m) => {
                let quoted = debug_quoted(m.as_str());
                let mut out = join("StorageError(", quoted.as_str());
                out.append(")");
                out
            },
        }
    }
}

impl From<String> for AuthError {
    /// A bare message stands for a storage error.
    fn from(error: String) -> (r: Self) {
        AuthError::StorageError(error)
    }
}

impl vstd::std_specs::convert::FromSpecImpl<String> for AuthError {
    open spec fn obeys_from_spec() -> bool {
        true
    }

    open spec fn from_spec(error: String) -> Self {
        AuthError::StorageError(error)
    }
}

} // verus!
