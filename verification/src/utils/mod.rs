//! Helpers around HTTP.

pub mod http;
