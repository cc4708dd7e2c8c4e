//! A tree-walking evaluator for a small imperative scripting language.
//!
//! The language has variables, arithmetic, comparisons, conditionals, loops,
//! functions, and a console to print to and read from. A program is a block
//! of [`AstNode`]s. An [`Interpreter`] evaluates it step by step and leaves to
//! its host what it cannot do itself: input, output, and the arithmetic of
//! single-precision numbers.

pub mod ast;
pub mod error;
pub mod interpreter;
pub mod laws;
pub mod machine;
pub mod parser;
pub mod scope;
pub mod table;
pub mod text;
pub mod types;

pub use crate::ast::{AstNode, Expression};
pub use crate::error::{Error, InterpreterError, ParserError, TypeError};
pub use crate::interpreter::{run, Control, Frame, Interpreter, Reply, Request};
pub use crate::scope::{EvalParams, Function, Scope};
pub use crate::types::{Float, InputType, Value};
