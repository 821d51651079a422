//! Variable assignment for a small interpreter: values, the bindings of a
//! running program, and the resolution of short textual expressions (a
//! variable's name, or a name and an index) against those bindings.

pub mod number;
pub mod value;
pub mod store;
pub mod text;
pub mod create;
pub mod laws;
