//! A bytecode interpreter for [Lox](https://craftinginterpreters.com/the-lox-language.html).
//!
//! See part III of [Crafting Interpreters](https://craftinginterpreters.com/).
pub mod chunk;
pub mod compiler;
pub mod debug;
pub mod error;
pub mod extension_traits;
pub mod gc;
pub mod scanner;
pub mod grammar;
pub mod value;
pub mod vm;

use vstd::prelude::*;

verus! {

/// The type returned by various functions that parse, compile, and run Lox code.
/// This is the standard [std::result::Result], but the error is always
/// [error::InterpretationError].
pub type Result<T> = std::result::Result<T, error::InterpretationError>;

} // verus!
