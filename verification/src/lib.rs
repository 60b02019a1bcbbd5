//! A minimal multi-tenant HTTP front-end library: request-line parsing,
//! static-file and reverse-proxy response construction, header rewriting,
//! status classification, and access-log formatting.
//!
//! Socket, file and configuration I/O live outside this crate; every function
//! here is a total computation over plain values, with a verified contract.

pub mod config;
pub mod dispatch;
pub mod proxy;
pub mod request;
pub mod static_files;
pub mod text;
