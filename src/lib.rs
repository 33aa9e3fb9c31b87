//! An incremental step runner with a memoizing request cache.
//!
//! - `fingerprint`: short content hashes (the first 128 bits of SHA-256, in hex).
//! - `json`: structured values, their canonical text and member lookup.
//! - `types`: requests and responses of the model service and their JSON forms.
//! - `lifecycle`: file observations, step manifests and the lifecycle of a step.
//! - `steps`: the registered steps, their declared inputs and the run protocol.
//! - `cache`: the content-addressed cache of responses, keyed by canonical requests.
//! - `outline`: book outlines and their markdown.
//! - `outputs`: project configuration and reading the output of a response.
use vstd::prelude::*;

pub mod cache;
pub mod fingerprint;
pub mod json;
pub mod lifecycle;
pub mod outline;
pub mod outputs;
pub mod steps;
pub mod types;

verus! {

} // verus!
