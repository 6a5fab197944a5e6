//! Reasons that a trace can be invalidated.

use vstd::prelude::*;

verus! {

/// Reasons that a trace can be invalidated.
#[derive(Debug)]
pub enum InvalidTraceError {
    /// There is no SIR for a location in the trace. The string inside is the
    /// binary symbol name in which the location appears.
    NoSir(String),
    /// Something went wrong in the compiler's tracing code.
    InternalError,
}

impl InvalidTraceError {
    /// A helper function to create an `InvalidTraceError::NoSir`.
    pub fn no_sir(symbol_name: &str) -> (r: Self)
        ensures
            r matches InvalidTraceError::NoSir(s) && s@ == symbol_name@,
    {
        InvalidTraceError::NoSir(symbol_name.to_owned())
    }
}

} // verus!
