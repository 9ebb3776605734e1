//! The check in front of a route: a request passes or is turned away with a
//! status and a message.

use super::error::{AuthError, AuthErrorView};
use super::service::{records_after, verdict, Auth};
use super::types::Permission;
use crate::utils::http::HttpResponse;
use vstd::prelude::*;
use vstd::string::*;

verus! {

/// The HTTP status with which a refused request is answered.
pub open spec fn refusal_status(e: AuthErrorView) -> u16 {
    match e {
        AuthErrorView::MissingApiKey => 401,
        AuthErrorView::InvalidApiKey => 401,
        AuthErrorView::KeyExpired => 403,
        AuthErrorView::KeySuspended => 403,
        AuthErrorView::InsufficientPermissions => 403,
        AuthErrorView::RateLimitExceeded => 429,
        AuthErrorView::StorageError(_) => 500,
    }
}

/// The message with which a refused request is answered.
pub open spec fn refusal_message(e: AuthErrorView) -> Seq<char> {
    match e {
        AuthErrorView::MissingApiKey => "Missing API key"@,
        AuthErrorView::InvalidApiKey => "Invalid API key"@,
        AuthErrorView::KeyExpired => "API key has expired"@,
        AuthErrorView::KeySuspended => "API key is suspended"@,
        AuthErrorView::InsufficientPermissions => "Insufficient permissions"@,
        AuthErrorView::RateLimitExceeded => "Rate limit exceeded"@,
        AuthErrorView::StorageError(_) => "Internal server error"@,
    }
}

/// The answer to a refused request: the status, and an envelope with the
/// same code, the message, and an empty body.
pub fn refusal(e: &AuthError) -> (r: (u16, HttpResponse<String>))
    ensures
        r.0 == refusal_status(e@),
        r.1.code == refusal_status(e@),
        r.1.message@ == refusal_message(e@),
        r.1.body@ == Seq::<char>::empty(),
{
    let (status, message) = match e {
        AuthError::MissingApiKey => (401u16, "Missing API key"),
        AuthError::InvalidApiKey => (401u16, "Invalid API key"),
        AuthError::KeyExpired => (403u16, "API key has expired"),
        AuthError::KeySuspended => (403u16, "API key is suspended"),
        AuthError::InsufficientPermissions => (403u16, "Insufficient permissions"),
        AuthError::RateLimitExceeded => (429u16, "Rate limit exceeded"),
        AuthError::StorageError(_) => (500u16, "Internal server error"),
    };
    (status, HttpResponse::new(status, String::from_str(message), String::new()))
}

/// Passes or refuses a request that presents `api_key`. Whatever the clock
/// reads and the key's bucket answers, the request passes exactly when
/// `verdict` admits it, and a refusal carries the status and the message of
/// the verdict's error.
pub fn auth_middleware(auth: &mut Auth, api_key: Option<&str>, required_permission: Permission) -> (r:
    Result<(), (u16, HttpResponse<String>)>)
    requires
        old(auth).wf(),
    ensures
        final(auth).wf(),
        final(auth).keys() == old(auth).keys(),
        exists|now: i64, granted: bool|
            {
                let v = #[trigger] verdict(
                    old(auth).keys(),
                    old(auth).stats(),
                    api_key.deep_view(),
                    required_permission,
                    now,
                    granted,
                );
                &&& r is Ok == v is Ok
                &&& final(auth).stats() == records_after(
                    old(auth).keys(),
                    old(auth).stats(),
                    api_key.deep_view(),
                    required_permission,
                    now,
                    granted,
                )
                &&& r matches Err(answer) ==> v matches Err(e) && answer.0 == refusal_status(e)
                    && answer.1.code == refusal_status(e) && answer.1.message@ == refusal_message(
                    e,
                ) && answer.1.body@ == Seq::<char>::empty()
            },
{
    match auth.verify_api_key(api_key, required_permission) {
        Ok(()) => Ok(()),
        Err(e) => Err(refusal(&e)),
    }
}

} // verus!
