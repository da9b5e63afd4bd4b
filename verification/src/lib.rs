//! Lowering backend of a functional-language compiler: a reference-count
//! annotation pass over a closure-based source IR, and an expression lowering
//! from that IR to a low-level, imperative target IR with reference-counted
//! heap values and a thread-safe thunk protocol.

pub mod canonical;
pub mod compile;
pub mod expressions;
pub mod ir;
pub mod laws;
pub mod lower;
pub mod lower_types;
pub mod module;
pub mod reference_count;
pub mod target;
pub mod types;
pub mod vars;
