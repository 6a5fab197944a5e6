//! Core of a meta-tracing just-in-time compiler: a low-level intermediate
//! representation (SIR) shared by two subsystems, a trace lowering pass that
//! turns a recorded sequence of executed basic-block locations into a guarded
//! straight-line trace representation (TIR), and a reference interpreter that
//! executes SIR bodies directly against byte-addressed stack frames.

pub mod bodyflags;
pub mod errors;
pub mod interp;
pub mod sir;
pub mod tir;
pub mod types;

use vstd::prelude::*;

verus! {

/// A debugging aid for traces.
/// Calls to this function are recognised by the compiler that produces the
/// IR, and a special debug statement is inserted into the trace.
/// Interpreter writers should compile-time guard calls to this so as to
/// only emit the extra bytecodes when explicitly turned on.
#[inline(never)]
pub fn trace_debug(_msg: &'static str) {
}

} // verus!
