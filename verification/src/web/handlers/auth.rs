//! The key routes.

use super::ApiResponse;
use crate::auth::service::{minted, summary_of};
use crate::auth::stats::{ApiKeyStats, ApiKeyStatsView, ApiKeyUsageReport};
use crate::auth::storage::{holds_key, key_lookup, key_stored, key_with_status, stats_lookup};
use crate::auth::{ApiKeyInfo, Auth, KeyStatus, Permission, RateLimit};
use vstd::prelude::*;

verus! {

/// The body of a request for a new key.
#[derive(Debug, PartialEq, Eq)]
pub struct CreateApiKeyRequest {
    pub name: String,
    pub permissions: Vec<Permission>,
    pub rate_limit: RateLimit,
    pub expires_in_days: Option<i64>,
}

/// The data of the answer to a request for a new key.
#[derive(Debug, PartialEq, Eq)]
pub struct ApiKeyResponse {
    pub key_info: ApiKeyInfo,
}

/// Creates a key as the request asks. Answers 201 with the key, or 500 with
/// "expiry out of range" when the key's expiry does not fit the machine
/// word.
pub fn create_api_key(auth: &mut Auth, req: CreateApiKeyRequest) -> (r: (
    u16,
    ApiResponse<ApiKeyResponse>,
))
    requires
        old(auth).wf(),
    ensures
        final(auth).wf(),
        final(auth).stats() == old(auth).stats(),
        r.0 == 201 || r.0 == 500,
        r.0 == 201 ==> r.1.success && r.1.error is None && (r.1.data matches Some(d)
            && final(auth).keys() == key_stored(old(auth).keys(), d.key_info@.key, d.key_info@)
            && exists|token: Seq<char>, now: i64|
            d.key_info@ == #[trigger] minted(
                token,
                req.name@,
                req.permissions@,
                req.rate_limit,
                req.expires_in_days,
                now,
            )),
        r.0 == 500 ==> !r.1.success && r.1.data is None && (r.1.error matches Some(m) && m@
            == "expiry out of range"@) && final(auth).keys() == old(auth).keys(),
        req.expires_in_days is None ==> r.0 == 201,
{
    match auth.create_api_key(req.name, req.permissions, req.rate_limit, req.expires_in_days) {
        Ok(key_info) => (201, ApiResponse::success(ApiKeyResponse { key_info })),
        Err(e) => (500, ApiResponse::error(e)),
    }
}

/// Revokes a key. Answers 200, or 404 with "API key not found" for a key
/// that is not known.
pub fn revoke_api_key(auth: &mut Auth, api_key: &str) -> (r: (u16, ApiResponse<()>))
    requires
        old(auth).wf(),
    ensures
        final(auth).wf(),
        final(auth).stats() == old(auth).stats(),
        final(auth).keys() == key_with_status(old(auth).keys(), api_key@, KeyStatus::Suspended),
        holds_key(old(auth).keys(), api_key@) ==> r.0 == 200 && r.1.success && r.1.data == Some(())
            && r.1.error is None,
        !holds_key(old(auth).keys(), api_key@) ==> r.0 == 404 && !r.1.success && r.1.data is None
            && (r.1.error matches Some(m) && m@ == "API key not found"@),
{
    match auth.revoke_api_key(api_key) {
        Ok(_) => (200, ApiResponse::success(())),
        Err(e) => (404, ApiResponse::error(e)),
    }
}

/// Reads the usage record of a key. Answers 200 with the record, or 404
/// with "API key not found".
pub fn get_key_stats(auth: &Auth, api_key: &str) -> (r: (u16, ApiResponse<ApiKeyStats>))
    requires
        auth.wf(),
    ensures
        holds_key(auth.keys(), api_key@) ==> r.0 == 200 && r.1.success && r.1.error is None && (
        r.1.data matches Some(s) && (match stats_lookup(auth.stats(), api_key@) {
            Some(found) => s@ == found,
            None => exists|now: i64| s@ == ApiKeyStatsView::fresh(now),
        })),
        !holds_key(auth.keys(), api_key@) ==> r.0 == 404 && !r.1.success && r.1.data is None
            && (r.1.error matches Some(m) && m@ == "API key not found"@),
{
    match auth.get_key_stats(api_key) {
        Ok(stats) => (200, ApiResponse::success(stats)),
        Err(e) => (404, ApiResponse::error(e)),
    }
}

/// Reads the usage report of a key. Answers 200 with the report, or 404
/// with "API key not found".
pub fn get_key_usage_report(auth: &Auth, api_key: &str) -> (r: (u16, ApiResponse<ApiKeyUsageReport>))
    requires
        auth.wf(),
    ensures
        holds_key(auth.keys(), api_key@) ==> r.0 == 200 && r.1.success && r.1.error is None && (
        r.1.data matches Some(report) && Some(report@.key_info) == key_lookup(
            auth.keys(),
            api_key@,
        ) && exists|now: i64|
            {
                &&& report@.stats == (match stats_lookup(auth.stats(), api_key@) {
                    Some(found) => found,
                    None => ApiKeyStatsView::fresh(now),
                })
                &&& report@.usage_summary == #[trigger] summary_of(
                    report@.key_info,
                    report@.stats,
                    now,
                )
            }),
        !holds_key(auth.keys(), api_key@) ==> r.0 == 404 && !r.1.success && r.1.data is None
            && (r.1.error matches Some(m) && m@ == "API key not found"@),
{
    match auth.get_key_usage_report(api_key) {
        Ok(report) => (200, ApiResponse::success(report)),
        Err(e) => (404, ApiResponse::error(e)),
    }
}

} // verus!
