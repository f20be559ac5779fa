//! A small stack-based bytecode machine with a generation-tagged heap and a
//! tracing mark-sweep collector.
//!
//! The heap and the instruction store are `generational_arena::Arena`s; what
//! this crate assumes of them is collected in [`arena`]. Floating-point values
//! are carried as IEEE 754 binary32 bit patterns; their arithmetic and their
//! text are supplied by the embedder when an [`interpreter::Interpreter`] is
//! built.

pub mod id;
pub mod traits;
pub mod float;
pub mod value;
pub mod object;
pub mod instruction;
pub mod arena;
pub mod text;
pub mod reach;
pub mod memory;
pub mod vm;
pub mod laws;
pub mod error;
pub mod machine;
pub mod loader;
pub mod interpreter;
