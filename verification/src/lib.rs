//! Credential and session-authentication core of a multi-tenant
//! link-redirection service.
//!
//! The library establishes trust for two kinds of principal: machine
//! clients ("platforms") holding long-lived API keys, and a single human
//! operator using a password plus short-lived rotating session tokens.
//! Password hashing, secret generation, the session-token lifecycle,
//! platform key issuance and the request-time authentication guards are
//! all implemented and verified here; HTTP handling and the relational
//! store are left to the surrounding application.

pub mod config;
pub mod errors;
pub mod guard;
pub mod hashing;
mod ids;
pub mod platforms;
pub mod secrets;
pub mod session;

