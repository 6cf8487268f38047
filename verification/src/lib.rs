//! A small interpreter for a homoiconic Lisp-like language.
//!
//! Source text is read into a tree of `Value`s; that same tree shape is both
//! program and data.  The evaluator resolves symbols against a two-tier
//! environment (shared globals, per-call locals), dispatches lists through
//! `Function` values, and runs user closures through a tail-call trampoline
//! driven by the `recur` convention.

pub mod eval;
pub mod laws;
pub mod nums;
pub mod parser;
pub mod sem;
pub mod value;

pub use value::Builtin;
pub use value::Closure;
pub use value::FnKind;
pub use value::Function;
pub use value::Value;
