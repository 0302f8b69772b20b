//! The instructions of the program.

pub mod shared;
