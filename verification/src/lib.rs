//! Core of an unattended pinning daemon. At a fixed rate it asks a feed
//! service for the latest posts of a list of feeds, reads from each post the
//! content identifiers that its metadata names, and asks a storage network
//! to retain them, with a bound on the fetches and another on the pin
//! requests that are outstanding at once.
//!
//! The library decides and the caller carries out: it is handed the clock's
//! reading and what happened, and answers with what to do next.
//!
//! - `config`: the configuration and the conditions it has to meet.
//! - `message`: the requests and responses of the feed service.
//! - `extract`, `extract_laws`: which identifiers a post contributes.
//! - `pool`: a queue of work under a limit on running operations.
//! - `pipeline`, `pipeline_laws`: the two stages as one state machine.
//! - `scheduler`: the fixed-rate schedule of cycles.
//! - `daemon`: schedule and pipeline put together.
//! - `rpc`: the JSON-RPC envelope of a call and of its reply.
//! - `json`: what is assumed of `serde_json`; `reading`, `decimal`: the
//!   verified readers and writers built on it.

pub mod config;
pub mod daemon;
pub mod decimal;
pub mod extract;
pub mod extract_laws;
pub mod json;
pub mod message;
pub mod pipeline;
pub mod pipeline_laws;
pub mod pool;
pub mod reading;
pub mod rpc;
pub mod scheduler;
