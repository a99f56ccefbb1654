//! The back end of a compiler for a small C-like language.
//!
//! The library lowers a syntax tree into an intermediate representation in
//! static-single-assignment style, and generates RISC-V assembly text from
//! that representation.
//!
//! * [`ir::structs`] is the syntax tree: one function, scalar constants and
//!   variables, conditionals, short-circuit operators, return.
//! * [`ir::vm`] is the scope manager, [`ir::calc`] evaluates constant
//!   initializers, [`ir::exp`] and [`ir::stmt`] lower expressions and
//!   statements with the steps of [`ir::builder`].
//! * [`ir::entities`] is the representation itself: values, basic blocks,
//!   functions. [`ir::export`] hands a function over to the `koopa` crate.
//! * [`riscv::vm`] is the location manager, which says in which register or
//!   stack slot a value lives, and [`riscv::visitor`] generates the listing,
//!   whose lines and text are in [`riscv::inst`].
//!
//! Every function states what it returns over the mathematical content of
//! its arguments: `lower_unit` is the function that a compilation unit lowers
//! to, `gen_program` the listing of a program.
//!
//! The two halves meet in `Module::wf`: the builder returns only programs
//! whose functions are well-formed and whose operands stand before their
//! uses, and the generator rejects no such program as malformed. Its only
//! failure on them is a frame that is too large.

pub mod error;
pub mod ir;
pub mod riscv;
pub mod text;
