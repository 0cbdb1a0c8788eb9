//! A synchronous reactive library: processes are built from combinators,
//! compiled to a control-flow graph of nodes, and run instant by instant.

pub mod value;
pub mod utility;
pub mod signal;
pub mod engine;
pub mod graph;
pub mod node;
pub mod process;
pub mod dsl;
