//! Compiles node graphs into script text.
//!
//! A catalog holds named functions, each a graph of nodes whose ports are joined by
//! connections. Control nodes are sequenced by execution connections from Main's single
//! Enter node; data nodes are expressions resolved, with memoisation and cycle detection,
//! for the operands of control nodes. A call of a function is inlined. The result is a
//! script in a small Lisp-like notation (`(local x v)`, `(io.write e)`, `(if c (do ..) (do ..))`).
//!
//! - `types`: port data types, inline values and their literal text.
//! - `graph`: the graph arena and its edits.
//! - `nodes`: node kinds and their code-generation hooks; `ports`: the ports a kind gets.
//! - `functions`, `editing`: the catalog and its edits; `utils`: unique names.
//! - `semantics`: what a compile yields, as spec functions; `compiler`: the compiler.

pub mod compiler;
pub mod editing;
pub mod functions;
pub mod graph;
pub mod nodes;
pub mod ports;
pub mod semantics;
pub mod types;
pub mod utils;
