//! Credential lifecycle core of an authentication service.
//!
//! The library issues, verifies and rotates signed credentials for
//! registered users: password-based identity verification, token
//! issuance and verification, and refresh-token rotation with reuse
//! detection and cascading revocation. Storage is modelled by an
//! in-memory store with a precise map view; password hashing and
//! token signing are performed by outside crates behind narrow
//! trusted wrappers.

pub mod config;
pub mod controller;
pub mod credentials;
pub mod db;
pub mod errors;
pub mod jwt;
pub mod models;
pub mod password;
pub mod randomizer;
pub mod repository;
