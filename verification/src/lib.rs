//! A small expression-oriented interpreter: values, an arena of lexically
//! chained frames, and a depth-bounded recursive evaluator.
pub mod env;
pub mod eval;
pub mod laws;
pub mod parse;
pub mod semantics;
pub mod types;

pub use env::{global_env, Env, Frame};
pub use eval::{
    eval_begin, eval_call, eval_define, eval_env, eval_eq, eval_if, eval_lambda, eval_operands,
    eval_quote, eval_sub, eval_times, numbers_equal, Evaluator, DEFAULT_DEPTH,
};
pub use parse::{parse, read_from_tokens, tokenize, ParseError, ParseResult, Token};
pub use semantics::{Doubles, Letters};
pub use types::{Atom, Builtin, EvalError, Expr, List, Procedure, Shape, Symbol};
