//! Access-control and key-lifecycle core of a small API-key proxy service.
//!
//! Registered users authenticate with an email and password, obtain and
//! revoke API keys, and use an enabled key to trigger one proxied action;
//! every successful action is recorded in a usage log.  The store keeps
//! three kinds of records (users, API keys, usage records) with referential
//! integrity between them, and every operation states exactly which inputs
//! succeed and which error category each rejected input produces.

pub mod actions;
pub mod capabilities;
pub mod endpoints;
pub mod laws;
pub mod models;
pub mod seqtools;
pub mod store;
