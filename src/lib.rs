//! Computation by hand on an unbounded sheet of squared paper: a sparse
//! character grid, a cursor, cursor-relative words, and a small instruction
//! set whose calls open fresh sheets that are stepped one instruction at a time.

pub mod convenience;
pub mod describe;
pub mod instructions;
pub mod machine;
pub mod papier;
pub mod programs;
pub mod sheet;
pub mod stacker;
pub mod text;
pub mod value;
pub mod viewer;
