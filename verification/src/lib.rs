//! A small math-expression engine: a tokenizer, a precedence-climbing parser
//! and a tree-walking evaluator over a caller-supplied binding context.
//!
//! Numeric values are IEEE-754 binary64 values, carried everywhere as their
//! bit patterns (`u64`); the `numeric` module holds the arithmetic on them.

mod ast;
mod context;
mod expr;
mod numeric;
mod token;

pub use ast::{ExprNode, ParseError, Parser, get_precedence};
pub use context::{Builtin, Context, Function};
pub use expr::{EvalError, Expr};
pub use token::{LexError, Lexer, Token};
