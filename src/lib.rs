//! A small stack-based virtual machine over fixed-point scalars, dense
//! vectors of scalars and sorted label sequences, run against an external
//! key-value store.

pub mod amount;
pub mod arith;
pub mod asset;
pub mod codec;
pub mod error;
pub mod filler;
pub mod interp;
pub mod join;
pub mod labels;
pub mod laws;
pub mod opcodes;
pub mod operand;
pub mod program;
pub mod quoter;
pub mod programs;
pub mod semantics;
pub mod single_order;
pub mod solver;
pub mod stack;
pub mod store;
pub mod vector;

pub use amount::Amount;
pub use error::ErrorCode;
pub use labels::Labels;
pub use operand::Operand;
pub use program::Program;
pub use stack::Stack;
pub use store::{MemoryStore, VectorIO};
pub use vector::Vector;
