//! Idempotent execution of side-effecting requests: validated idempotency
//! keys, a lossless codec for captured responses, a transactional response
//! store with a uniqueness constraint on (caller, key), and the coordinator
//! that replays a saved response or records a new one exactly once, both as
//! a direct driver over the store and as a step machine for external stores.
//!
//! Around it sit the newsletter service's own rules: configuration, Basic
//! credentials and password checks, subscription tokens and confirmation
//! emails, login redirects, and error reports.

pub mod error;
pub mod key;
pub mod response;
pub mod store;
pub mod coordinator;
pub mod flow;
pub mod text;
pub mod configuration;
pub mod authentication;
pub mod newsletters;
pub mod subscriptions;
pub mod login;
pub mod report;
