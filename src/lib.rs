//! Credential lifecycle for the energy community platform: password hashing,
//! signed access/refresh token families with server-side revocation, opaque
//! sessions, and linking of third-party (OAuth) identities to local accounts.
pub mod config;
pub mod directory;
pub mod error;
pub mod oauth;
pub mod ids;
pub mod laws;
pub mod models;
pub mod password;
pub mod service;
pub mod store;
pub mod token;
pub mod validation;
