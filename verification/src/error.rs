//! Provides [InterpretationError], the error that most things return.
use vstd::prelude::*;

verus! {

/// Any error that can occur during interpretation.
#[derive(Debug, Clone, Copy, PartialEq, Eq, Structural)]
pub enum InterpretationError {
    /// A compile-time error, such as a syntax error, or a name error.
    CompileError,
    /// A runtime error, such as a type error or exception.
    RuntimeError,
}

} // verus!
