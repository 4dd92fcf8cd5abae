//! Taurine: syntax tree optimizer, bytecode compiler and virtual machine.
pub mod ast;
pub mod bytecode;
pub mod compile_laws;
pub mod heap_laws;
pub mod compiler;
pub mod interner;
pub mod limits;
pub mod machine;
pub mod messages;
pub mod number;
pub mod optimizer;
pub mod rewrite_laws;
pub mod slots;
pub mod table;
pub mod text;
pub mod value;
pub mod vm;

pub use optimizer::{Optimizer, OptimizerStats};
