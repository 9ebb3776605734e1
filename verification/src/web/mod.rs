//! Values exchanged with HTTP clients and the decisions the routes take.

pub mod handlers;
pub mod pagination;

pub use pagination::Pagination;
