//! The intermediate representation and the pass that builds it.

pub mod builder;
pub mod calc;
pub mod entities;
pub mod exp;
pub mod export;
pub mod koopa_ir;
pub mod label;
pub mod stmt;
pub mod structs;
pub mod vm;
