//! The errors of the two passes. Each is fatal: a pass stops at the first one.

use vstd::prelude::*;

verus! {

/// Why a syntax tree could not be lowered.
#[derive(Clone, Copy, Debug, PartialEq, Eq, Structural)]
pub enum BuildError {
    /// An identifier is declared twice in one scope frame.
    DuplicateDeclaration,
    /// An identifier has no binding in any enclosing scope.
    UndefinedSymbol,
    /// The target of an assignment is bound to a constant.
    AssignmentToConstant,
    /// A constant initializer refers to a variable.
    NonConstantExpression,
    /// A constant initializer divides by zero.
    DivisionByZero,
}

/// Why assembly could not be generated.
#[derive(Clone, Copy, Debug, PartialEq, Eq, Structural)]
pub enum AsmError {
    /// A block's stack frame exceeds what one immediate can address.
    FrameOverflow,
    /// An instruction uses a value that has no location yet, or is not one
    /// that a block can hold.
    Malformed,
}

} // verus!
