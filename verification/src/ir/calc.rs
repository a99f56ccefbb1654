//! Compile-time evaluation of constant initializers.
//!
//! Arithmetic is that of the target machine: 32-bit two's complement, division
//! that truncates towards zero.

use vstd::prelude::*;
use crate::error::BuildError;
use crate::ir::structs::{BinOp, Exp, UnaryOp};
use crate::ir::vm::{scopes_get, Decl, Frame, ValueManager};

verus! {

/// Quotient of the division that truncates towards zero. (On a dividend that
/// is not negative, the quotient with a remainder that is not negative is the
/// truncated one, whatever the divisor's sign.)
pub open spec fn trunc_div(a: int, b: int) -> int
    recommends
        b != 0,
{
    if a >= 0 {
        a / b
    } else {
        -((-a) / b)
    }
}

/// Remainder of the division that truncates towards zero: it has the sign of
/// the dividend.
pub open spec fn trunc_rem(a: int, b: int) -> int
    recommends
        b != 0,
{
    if a >= 0 {
        a % b
    } else {
        -((-a) % b)
    }
}

/// Zero or one for a truth value.
pub open spec fn bool_value(b: bool) -> i32 {
    if b {
        1
    } else {
        0
    }
}

/// ValueId of a prefix operator applied to `x`.
pub open spec fn unary_value(op: UnaryOp, x: i32) -> i32 {
    match op {
        UnaryOp::Plus => x,
        UnaryOp::Minus => 0i32.wrapping_sub(x),
        UnaryOp::Not => bool_value(x == 0),
    }
}

/// ValueId of an infix operator applied to `x` and `y`, or the error of a zero
/// divisor.
pub open spec fn binary_value(op: BinOp, x: i32, y: i32) -> Result<i32, BuildError> {
    match op {
        BinOp::Mul => Ok(x.wrapping_mul(y)),
        BinOp::Div => if y == 0 {
            Err(BuildError::DivisionByZero)
        } else if x == i32::MIN && y == -1 {
            Ok(i32::MIN)
        } else {
            Ok(trunc_div(x as int, y as int) as i32)
        },
        BinOp::Mod => if y == 0 {
            Err(BuildError::DivisionByZero)
        } else if x == i32::MIN && y == -1 {
            Ok(0)
        } else {
            Ok(trunc_rem(x as int, y as int) as i32)
        },
        BinOp::Add => Ok(x.wrapping_add(y)),
        BinOp::Sub => Ok(x.wrapping_sub(y)),
        BinOp::Lt => Ok(bool_value(x < y)),
        BinOp::Le => Ok(bool_value(x <= y)),
        BinOp::Gt => Ok(bool_value(x > y)),
        BinOp::Ge => Ok(bool_value(x >= y)),
        BinOp::Eq => Ok(bool_value(x == y)),
        BinOp::Ne => Ok(bool_value(x != y)),
    }
}

/// ValueId of a constant expression under the bindings in scope, or the first
/// error met when evaluating left to right.
pub open spec fn eval(scopes: Seq<Frame>, e: Exp) -> Result<i32, BuildError>
    decreases e,
{
    match e {
        Exp::Number(n) => Ok(n),
        Exp::LVal(name) => match scopes_get(scopes, name@) {
            None => Err(BuildError::UndefinedSymbol),
            Some(Decl::Const(c)) => Ok(c),
            Some(Decl::Var(_)) => Err(BuildError::NonConstantExpression),
        },
        Exp::Unary(op, a) => match eval(scopes, *a) {
            Err(err) => Err(err),
            Ok(x) => Ok(unary_value(op, x)),
        },
        Exp::Binary(l, op, r) => match eval(scopes, *l) {
            Err(err) => Err(err),
            Ok(x) => match eval(scopes, *r) {
                Err(err) => Err(err),
                Ok(y) => binary_value(op, x, y),
            },
        },
        Exp::LAnd(l, r) => match eval(scopes, *l) {
            Err(err) => Err(err),
            Ok(x) => if x == 0 {
                Ok(0)
            } else {
                match eval(scopes, *r) {
                    Err(err) => Err(err),
                    Ok(y) => Ok(bool_value(y != 0)),
                }
            },
        },
        Exp::LOr(l, r) => match eval(scopes, *l) {
            Err(err) => Err(err),
            Ok(x) => if x != 0 {
                Ok(1)
            } else {
                match eval(scopes, *r) {
                    Err(err) => Err(err),
                    Ok(y) => Ok(bool_value(y != 0)),
                }
            },
        },
    }
}

/// Zero or one for a truth value.
fn truth(b: bool) -> (r: i32)
    ensures
        r == bool_value(b),
{
    if b {
        1
    } else {
        0
    }
}

/// Applies a prefix operator.
pub fn apply_unary(op: UnaryOp, x: i32) -> (r: i32)
    ensures
        r == unary_value(op, x),
{
    match op {
        UnaryOp::Plus => x,
        UnaryOp::Minus => 0i32.wrapping_sub(x),
        UnaryOp::Not => truth(x == 0),
    }
}

/// Applies an infix operator.
pub fn apply_binary(op: BinOp, x: i32, y: i32) -> (r: Result<i32, BuildError>)
    ensures
        r == binary_value(op, x, y),
{
    match op {
        BinOp::Mul => Ok(x.wrapping_mul(y)),
        BinOp::Div => if y == 0 {
            Err(BuildError::DivisionByZero)
        } else if x == i32::MIN && y == -1 {
            Ok(i32::MIN)
        } else {
            Ok(x / y)
        },
        BinOp::Mod => if y == 0 {
            Err(BuildError::DivisionByZero)
        } else if x == i32::MIN && y == -1 {
            Ok(0)
        } else {
            Ok(x % y)
        },
        BinOp::Add => Ok(x.wrapping_add(y)),
        BinOp::Sub => Ok(x.wrapping_sub(y)),
        BinOp::Lt => Ok(truth(x < y)),
        BinOp::Le => Ok(truth(x <= y)),
        BinOp::Gt => Ok(truth(x > y)),
        BinOp::Ge => Ok(truth(x >= y)),
        BinOp::Eq => Ok(truth(x == y)),
        BinOp::Ne => Ok(truth(x != y)),
    }
}

impl Exp {
    /// Evaluates a constant expression under the bindings in scope.
    pub fn calc(&self, vm: &ValueManager) -> (r: Result<i32, BuildError>)
        ensures
            r == eval(vm@, *self),
        decreases self,
    {
        match self {
            Exp::Number(n) => Ok(*n),
            Exp::LVal(name) => match vm.get(name.as_str()) {
                None => Err(BuildError::UndefinedSymbol),
                Some(Decl::Const(c)) => Ok(*c),
                Some(Decl::Var(_)) => Err(BuildError::NonConstantExpression),
            },
            Exp::Unary(op, a) => match a.calc(vm) {
                Err(err) => Err(err),
                Ok(x) => Ok(apply_unary(*op, x)),
            },
            Exp::Binary(l, op, r) => match l.calc(vm) {
                Err(err) => Err(err),
                Ok(x) => match r.calc(vm) {
                    Err(err) => Err(err),
                    Ok(y) => apply_binary(*op, x, y),
                },
            },
            Exp::LAnd(l, r) => match l.calc(vm) {
                Err(err) => Err(err),
                Ok(x) => if x == 0 {
                    Ok(0)
                } else {
                    match r.calc(vm) {
                        Err(err) => Err(err),
                        Ok(y) => Ok(truth(y != 0)),
                    }
                },
            },
            Exp::LOr(l, r) => match l.calc(vm) {
                Err(err) => Err(err),
                Ok(x) => if x != 0 {
                    Ok(1)
                } else {
                    match r.calc(vm) {
                        Err(err) => Err(err),
                        Ok(y) => Ok(truth(y != 0)),
                    }
                },
            },
        }
    }
}

} // verus!
