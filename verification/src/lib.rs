//! Verified logic of two procedural macros: a `Builder` derive that plans a
//! builder type for a struct with named fields, and a `seq!` macro that
//! repeats a block of tokens over a range of integers.

pub mod command;
pub mod tokens;
pub mod expansion;
pub mod seq_input;
pub mod derive_input;
pub mod derive_syntax;
pub mod derive_plan;
