//! Duplicate-file detection and cleanup engine.
//!
//! The library classifies file paths, selects which files are worth
//! fingerprinting, groups exact duplicates by size and content hash,
//! partitions each group under a retention strategy, and accounts for
//! guarded removal with optional backup. Directory walking, file reading
//! and deletion are left to the caller; every decision over the data they
//! produce is verified here.

pub mod model;
pub mod text;
pub mod classify;
pub mod fingerprint;
pub mod messages;
pub mod grouper;
pub mod retention;
pub mod cleanup;
pub mod manager;
pub mod inventory;
