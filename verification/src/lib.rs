//! Dynamic DNS update logic: request-field extraction, provider response
//! envelope decoding, record-set reconciliation, and poll-cycle evaluation.
pub mod addr;
pub mod basic_auth;
pub mod client;
pub mod envelope;
pub mod extract;
pub mod models;
pub mod poll;
pub mod reconcile;
pub mod hostname;
pub mod json;
pub mod strutil;
pub mod worker;
