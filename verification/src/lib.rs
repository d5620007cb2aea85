//! A virtual machine for Karma, a small stack-based bytecode language.
//!
//! A program is a graph of bytecode modules ("nodes"): each node is an
//! independently loaded bytecode blob, and a manifest declares which nodes may
//! interact.  The heart of the crate is the bytecode interpreter: a
//! fetch-decode-execute loop over a stack of 32-bit words, a byte-addressable
//! linear memory that grows on demand, and big-endian variable-width operands.
//! The interpreter's behaviour is specified instruction by instruction by a
//! mathematical transition function, and the executable machine is proved to
//! follow it step for step.

pub mod graph;
pub mod machine;
pub mod render;
pub mod words;

