//! An interpreter for an eight-command tape language: a lexer that turns
//! source text into instructions, a resolver that pairs loop brackets, and a
//! step-wise machine that runs the instructions against a growable tape.

pub mod engine;
pub mod instruction;
pub mod lexer;
pub mod resolver;

pub use engine::{Aneurysm, Effect, RuntimeError};
pub use instruction::Instruction;
pub use lexer::tokenize;
pub use resolver::{resolve, JumpTable, StructureError};
