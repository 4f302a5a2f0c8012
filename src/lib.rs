//! Schema-driven type generator: reads a TL interface schema and emits a
//! serialization-ready Rust type model for the JSON wire protocol.
use vstd::prelude::*;

pub mod text;
pub mod naming;
pub mod parser;
pub mod graph;
pub mod emit;
pub mod assemble;
pub mod printer;
