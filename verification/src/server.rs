//! Server-side rules: which upstream targets are allowed, and configuration.
pub mod acl;
pub mod config;
pub mod dispatch;
pub mod handshake;
pub mod limiter;
