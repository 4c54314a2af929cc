//! Dense, owned vectors and row-major matrices, with checked element access
//! and the dimension checks that decide when two operands can be combined.

pub mod fault;
pub mod vector;
pub mod matrix;
