//! Expression trees over an arbitrary leaf type and an arbitrary operator
//! type, and interpreters that give one tree several meanings.

pub mod algebra;
pub mod cooking;
pub mod dsl;
pub mod text;
