//! Core logic of an emote picker: a two-tier (memory + disk) image cache with
//! single-flight loads, a debounced and generation-guarded incremental search
//! flow, a bounded most-recently-used list of chosen emotes, and the
//! content-addressed disk layout and document encoding that persist them.
//!
//! Everything here is deterministic logic over plain values.  Network and file
//! I/O, timers and rendering live outside; they feed bytes and events in and
//! carry actions out.

pub mod cache;
pub mod codec;
pub mod debounce;
pub mod emote;
pub mod errors;
pub mod hashing;
pub mod recent;
pub mod request;
pub mod store;
pub mod text;

use vstd::prelude::*;

verus! {

/// The quiescence window, in milliseconds, that a scheduled search waits
/// before it runs.
pub const DEBOUNCE_DELAY_MS: u64 = 200;

/// Queries are truncated to at most this many bytes of UTF-8 before they are
/// normalized and hashed.
pub const QUERY_BYTE_LIMIT: usize = 64;

} // verus!
