//! Credential-to-session authority: validated identity value types,
//! store contracts for identities, revoked tokens and one-time
//! second-factor challenges, a session-token codec, and the
//! login/verification orchestrator that ties them together.
//!
//! The invariants this crate protects — one identity per address, at most
//! one active challenge per address and single-use redemption, and
//! revocation that outlasts signature validity — are stated in the
//! contracts of the store traits, the codec and the orchestrator.

pub mod data_stores;
pub mod email_client;
pub mod errors;
pub mod hashmap_two_fa_code_store;
pub mod hashmap_user_store;
pub mod hashset_banned_token_store;
pub mod routes;
pub mod token;
pub mod user;
