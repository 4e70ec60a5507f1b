//! The virtual machine: values, instructions and the execution engine.

pub mod laws;
pub mod machine;
pub mod model;
pub mod opcode;
pub mod value;

pub use machine::{Frame, VirtualMachine};
pub use opcode::{Capture, Opcode};
pub use value::{Environment, Value};
