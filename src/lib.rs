//! Detection of files on a live filesystem that no installed package can
//! vouch for: files that are neither unmodified package-owned content nor
//! excluded by policy.
pub mod digest;
pub mod manifest;
pub mod verification;
pub mod aggregate;
pub mod reconcile;
pub mod laws;
