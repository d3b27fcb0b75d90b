//! A local credential store whose verifiers are keyed by material derived
//! from an external, content-addressed resource.
//!
//! The library holds the protocol's logic: the identity and credential
//! digests, the audit line for every key derivation, the user store with its
//! uniqueness invariant, and the create / validate / edit flows. Fetching the
//! resource, reading the clock and touching files are left to the caller.

pub mod audit;
pub mod hashing;
pub mod laws;
pub mod protocol;
pub mod store;

pub use audit::audit_line;
pub use hashing::{credential_digest, identity_digest, image_key};
pub use protocol::{create_user, edit_user, image_url, resource_of_user, validate_user};
pub use store::{unique_record_identities, AuthError, UserRecord, UserStore};
