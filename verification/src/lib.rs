//! A protocol bridge that accepts file uploads over a file-transfer protocol
//! and turns each one into a job against an asynchronous document-ingestion
//! HTTP service: the inbound stream is staged durably, the staged file is
//! submitted, the resulting job is polled under a bounded deadline, and the
//! three possible endings (success, remote failure, timeout) are mapped back
//! into the single synchronous result the transfer protocol expects.
//!
//! The library holds the decision logic with its contracts; the transports
//! around it (the protocol engine, the HTTP client, the filesystem) hand it
//! plain values and carry out what it decides.

pub mod auth;
pub mod bridge;
pub mod client;
pub mod config;
pub mod staging;
pub mod stub;
pub mod text;
