//! A minimal class-file loader and bytecode interpreter.
//!
//! The crate parses a compiled class in the big-endian, tag-dispatched binary
//! layout of the Java virtual machine, builds a typed in-memory
//! representation around a 1-indexed constant pool, and runs the subset of
//! bytecode needed for a "hello world" program, collecting the printed lines.

pub mod bytes;
pub mod class;
pub mod error;
pub mod format;
pub mod interpreter;
pub mod model;
