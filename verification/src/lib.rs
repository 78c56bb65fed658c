//! A local identity cache and synchronization library.
//!
//! The library discovers nothing by itself: callers hand it the identities
//! that a discovery mechanism produced and the outcomes of remote calls, and
//! the library keeps the verified bookkeeping around them. It memoizes the
//! identity list for a process lifetime, keeps it in most-recent-first order,
//! memoizes remote profile enrichments per key, derives a stable machine
//! fingerprint, and assembles the registration payload that one bulk upload
//! carries to the remote registry.

pub mod errors;
pub mod identity;
pub mod identity_cache;
pub mod enrichment;
pub mod fingerprint;
pub mod json;
pub mod registry;
