//! Pooled, suspension-safe reads from non-blocking byte streams.
//!
//! A pool of reusable fixed-capacity buffers is checked out for the duration
//! of a single non-blocking read attempt and returned on every exit path:
//! success, end-of-stream, error, or suspension. The caller-facing transform
//! turns the filled portion of the buffer into an owned value before the
//! buffer is recycled, so no allocation is committed before data is actually
//! available.

use vstd::prelude::*;

pub mod copying;
pub mod pool;
pub mod read;

verus! {

/// Capacity of the per-context read buffer.
pub const READ_BUFFER_CAPACITY: usize = 65536;

/// Capacity of the buffers of the shared pool the copy loop draws from.
pub const COPY_CHUNK_CAPACITY: usize = 8192;

} // verus!
