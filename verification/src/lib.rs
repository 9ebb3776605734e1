//! A persistent, priority-driven job scheduler for long-running media jobs:
//! task lifecycle, the priority queue, retry and timeout rules, callback
//! selection and the credential service that admits work.

pub mod asr;
pub mod auth;
pub mod clock;
pub mod ident;
pub mod schedule;
pub mod storage;
pub mod text;
pub mod utils;
pub mod views;
pub mod web;

use auth::Auth;
use schedule::TaskManager;
use vstd::prelude::*;
use vstd::string::*;

verus! {

/// Where the task table is kept when nothing else is configured.
pub const ASR_SQLITE_PATH: &'static str = "sqlite://./asr_data/database/storage.db?mode=rwc";

/// Where audio inputs are stored when nothing else is configured.
pub const ASR_AUDIO_PATH: &'static str = "./asr_data/audio/";

/// What the services of the application share.
pub struct AppContext<P, F> {
    pub auth: Auth,
    pub task_manager: TaskManager<P, F>,
}

/// The value of a setting: what the process environment holds, else what
/// the environment file holds, else the default.
pub open spec fn setting(
    from_env: Option<Seq<char>>,
    from_file: Option<Seq<char>>,
    default: Seq<char>,
) -> Seq<char> {
    match from_env {
        Some(v) => v,
        None => match from_file {
            Some(v) => v,
            None => default,
        },
    }
}

/// The value of a setting, given what the process environment and the
/// environment file hold for it.
pub fn resolve_setting(from_env: Option<String>, from_file: Option<String>, default: &str) -> (r:
    String)
    ensures
        r@ == setting(from_env.deep_view(), from_file.deep_view(), default@),
{
    match from_env {
        Some(v) => v,
        None => match from_file {
            Some(v) => v,
            None => String::from_str(default),
        },
    }
}

/// The location of the task table.
pub fn sqlite_path(from_env: Option<String>, from_file: Option<String>) -> (r: String)
    ensures
        r@ == setting(from_env.deep_view(), from_file.deep_view(), ASR_SQLITE_PATH@),
{
    resolve_setting(from_env, from_file, ASR_SQLITE_PATH)
}

/// The directory for audio inputs.
pub fn audio_path(from_env: Option<String>, from_file: Option<String>) -> (r: String)
    ensures
        r@ == setting(from_env.deep_view(), from_file.deep_view(), ASR_AUDIO_PATH@),
{
    resolve_setting(from_env, from_file, ASR_AUDIO_PATH)
}

} // verus!
