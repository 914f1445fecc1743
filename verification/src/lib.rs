//! A tree-walking evaluator for a small S-expression language.
//!
//! Programs are `Expr` trees: symbols resolved in a chain of scopes,
//! lists dispatched on their head, a fixed table of built-in forms,
//! user-defined procedures and macros, and a quasiquote template
//! expander.  Every exported function carries a contract stating its
//! result in terms of a mathematical semantics (`sem`), and the laws
//! in `laws` are proved against that same semantics.

pub mod env;
pub mod eval;
pub mod expr;
pub mod laws;
pub mod sem;
