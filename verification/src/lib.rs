//! Verified core of the InfoLang semantic-memory client: credential,
//! namespace and workspace resolution, request planning (paths and JSON
//! bodies), response parsing, error classification, and the retry policy.
//!
//! Network I/O, timers and floating-point fields (scores, timings,
//! back-off) are left to the caller; every decision in between is here.

pub mod auth;
pub mod config;
pub mod error;
pub mod health;
pub mod json;
pub mod parse;
pub mod request;
pub mod retry;
pub mod text;
pub mod transport;
pub mod types;
pub mod workspace;

pub use auth::{
    ApiKeyAuth, Credential, DevKeyAuth, EnvVars, CLOUD_BASE_URL, DIRECT_BASE_URL, VERSION,
};
pub use config::{configure, default_user_agent, ClientConfig, ClientOptions};
pub use error::{ApiError, ConfigError, ConnectionError, Error};
pub use json::{Json, JsonNumber};
pub use parse::{ListPage, RecallHit, RecallPage};
pub use retry::{AttemptOutcome, RetryAction};
pub use types::{
    normalize_tags, ForgetOptions, IngestFile, IngestOptions, InvestigateOptions, ListOptions,
    ListRecentOptions, NamespaceInfo, OpError, OpResult, Operation, RecallOptions, RememberItem,
    RememberOptions, RememberResult,
};
pub use workspace::{WorkspaceResolver, WorkspaceStep};
