//! Generation of RISC-V assembly from the intermediate representation.

pub mod inst;
pub mod visitor;
pub mod vm;
