//! Errors of the event store.

use vstd::prelude::*;

verus! {

/// Errors of the event store's batch compression and telemetry.
#[derive(Debug)]
pub enum Error {
    /// The telemetry store or its schema is unusable.
    Schema(String),
    /// A batch could not be compressed or decompressed.
    Compression(String),
}

} // verus!
