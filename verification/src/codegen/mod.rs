//! Code generation: from expressions to x86-64 instructions, and from
//! instructions to assembly text.
pub mod instruction;
pub mod context;
pub mod compile;
pub mod limits;
pub mod labels;
pub mod meaning;
pub mod assemble;
