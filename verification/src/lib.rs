//! Signing: the compiler phase that gives every top-level definition of a
//! resolved namespace tree its structural signature.
pub mod ast;
pub mod builder;
pub mod error;
pub mod name_map;
pub mod namespace;
pub mod shapes;
pub mod sign;
pub mod signature;
pub mod soundness;
pub mod source;
pub mod tree;
pub mod ty;
