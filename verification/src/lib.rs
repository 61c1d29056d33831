//! Short-lived database credentials from Vault's database secrets engine.
//!
//! The operator configures targets. For each request the library maps the
//! caller's identity to a Vault role, decides whether the caller may have that
//! role, says which requests go to Vault, and turns Vault's replies into a
//! credential or an error. It sends nothing itself.

pub mod authorization;
pub mod client;
pub mod config;
pub mod credential;
pub mod http;
pub mod identity_mapping;
pub mod issuance;
pub mod issue_call;
pub mod kept_leases;
pub mod login;
pub mod plugin;
pub mod renewal;
pub mod revoke_call;
pub mod string_map;
pub mod text;
