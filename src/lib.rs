//! Credential cache and authentication gate for an API-key protected service.
//!
//! Credentials are loaded once from a relational store, decoded, and placed in
//! an immutable [`cache::CredentialCache`]. Each request's presented key is then
//! checked against that snapshot by [`gate::auth_checker`] or a
//! [`gate::CredentialVerifier`].

pub mod cache;
pub mod config;
pub mod gate;
pub mod record;
pub mod startup;
