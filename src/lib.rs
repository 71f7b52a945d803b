//! The `std::future` join of a small virtual machine, verified: a value model
//! with tuples, lists and futures, the stack calling convention, and the engine
//! that collects the results of a join by position.

pub mod error;
pub mod fatal;
pub mod join;
pub mod module;
pub mod stack;
pub mod value;
