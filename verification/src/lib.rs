pub mod adapter;
pub mod ast;
pub mod laws;
pub mod interp;
pub mod numeric;
pub mod semantics;
pub mod value;
