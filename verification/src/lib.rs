//! An evaluator for a point-free combinator calculus driving a stateful
//! client/server protocol: a lazy graph-reduction engine with memoization,
//! a canonical bit-level codec for nested-list values, and an interaction
//! driver that decides when a network exchange is required.

pub mod errors;
pub mod nested;
pub mod modem;
pub mod syntax;
pub mod eval;
pub mod bridge;
pub mod interact;
pub mod picture;
pub mod runtime;
pub mod laws;
