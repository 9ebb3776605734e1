//! The credential service: API keys, their permissions and quotas, and the
//! usage that is recorded for each.

pub mod error;
pub mod limiter;
pub mod middleware;
pub mod service;
pub mod stats;
pub mod storage;
pub mod types;

pub use error::AuthError;
pub use service::Auth;
pub use stats::{ApiKeyStats, ApiKeyUsageReport, UsageSummary};
pub use storage::{InMemoryApiKeyStatsStorage, InMemoryApiKeyStorage};
pub use types::{ApiKeyInfo, KeyStatus, Permission, RateLimit};
