//! A minimal PLONKish arithmetization engine: a circuit shape made of columns,
//! selector-guarded gates and a lookup table, and the row-by-row witness of an
//! iterated recurrence laid out over it.

pub mod column;
pub mod constraint_system;
pub mod error;
pub mod fib_squared;
pub mod field;
pub mod region;
pub mod satisfaction;
pub mod synthesis;
pub mod xor_chip;
