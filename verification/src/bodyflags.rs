//! Bits in the `flags` bitfield in `Body`.

use vstd::prelude::*;

verus! {

/// The body heads a trace: the bookkeeping entry point that starts tracing.
pub const TRACE_HEAD: u8 = 1;

/// The body tails a trace: the bookkeeping exit point that stops tracing.
pub const TRACE_TAIL: u8 = 1 << 1;

/// The body must never be traced.
pub const DO_NOT_TRACE: u8 = 1 << 2;

/// The body is a tracing debug marker; the interpreter skips it.
pub const TRACE_DEBUG: u8 = 1 << 3;

} // verus!
