//! A stack-based bytecode virtual machine for a small expression language,
//! together with the front end that type-checks expressions and compiles
//! them to bytecode.

pub mod ast;
pub mod error;
pub mod interpreter;
pub mod text;
pub mod types;
pub mod vm;
