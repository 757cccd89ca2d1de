//! Automated filing of bandwidth-throttling support tickets.
//!
//! The crate covers the two risk-bearing subsystems of the tool: the
//! request-signing protocol that authenticates every call to the cloud
//! provider's ticket API, and the approval-gated submission workflow that
//! guarantees a ticket is filed at most once per detected incident.

pub mod client;
pub mod config;
pub mod incident;
pub mod server;
pub mod signer;
pub mod speedtest;
pub mod store;
pub mod templates;
pub mod text;
