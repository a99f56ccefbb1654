use lowering::error::BuildError;
use lowering::ir::calc::{apply_binary, apply_unary};
use lowering::ir::entities::ValueId;
use lowering::ir::structs::{BinOp, Exp, UnaryOp};
use lowering::ir::vm::ValueManager;

fn num(n: i32) -> Exp {
    Exp::Number(n)
}

fn name(s: &str) -> Exp {
    Exp::LVal(s.to_string())
}

fn bin(l: Exp, op: BinOp, r: Exp) -> Exp {
    Exp::Binary(Box::new(l), op, Box::new(r))
}

fn un(op: UnaryOp, e: Exp) -> Exp {
    Exp::Unary(op, Box::new(e))
}

#[test]
fn calc_arithmetic_with_precedence_in_tree() {
    let vm = ValueManager::new();
    let e = bin(num(1), BinOp::Add, bin(num(2), BinOp::Mul, num(3)));
    assert_eq!(e.calc(&vm), Ok(7));
}

#[test]
fn calc_division_truncates_towards_zero() {
    assert_eq!(apply_binary(BinOp::Div, -7, 2), Ok(-3));
    assert_eq!(apply_binary(BinOp::Div, 7, -2), Ok(-3));
    assert_eq!(apply_binary(BinOp::Div, -7, -2), Ok(3));
    assert_eq!(apply_binary(BinOp::Div, 7, 2), Ok(3));
}

#[test]
fn calc_remainder_has_sign_of_dividend() {
    assert_eq!(apply_binary(BinOp::Mod, -7, 2), Ok(-1));
    assert_eq!(apply_binary(BinOp::Mod, 7, -2), Ok(1));
    assert_eq!(apply_binary(BinOp::Mod, -7, -2), Ok(-1));
    assert_eq!(apply_binary(BinOp::Mod, 7, 2), Ok(1));
}

#[test]
fn calc_division_by_zero_is_an_error() {
    let vm = ValueManager::new();
    assert_eq!(bin(num(1), BinOp::Div, num(0)).calc(&vm), Err(BuildError::DivisionByZero));
    assert_eq!(bin(num(1), BinOp::Mod, num(0)).calc(&vm), Err(BuildError::DivisionByZero));
    assert_eq!(
        bin(num(1), BinOp::Div, bin(num(2), BinOp::Sub, num(2))).calc(&vm),
        Err(BuildError::DivisionByZero)
    );
}

#[test]
fn calc_wraps_like_the_target() {
    assert_eq!(apply_binary(BinOp::Add, i32::MAX, 1), Ok(i32::MIN));
    assert_eq!(apply_binary(BinOp::Sub, i32::MIN, 1), Ok(i32::MAX));
    assert_eq!(apply_binary(BinOp::Mul, 65536, 65536), Ok(0));
    assert_eq!(apply_binary(BinOp::Div, i32::MIN, -1), Ok(i32::MIN));
    assert_eq!(apply_binary(BinOp::Mod, i32::MIN, -1), Ok(0));
    assert_eq!(apply_unary(UnaryOp::Minus, i32::MIN), i32::MIN);
}

#[test]
fn calc_unary_operators() {
    assert_eq!(apply_unary(UnaryOp::Plus, 5), 5);
    assert_eq!(apply_unary(UnaryOp::Minus, 5), -5);
    assert_eq!(apply_unary(UnaryOp::Not, 5), 0);
    assert_eq!(apply_unary(UnaryOp::Not, 0), 1);
    let vm = ValueManager::new();
    assert_eq!(un(UnaryOp::Minus, un(UnaryOp::Not, num(0))).calc(&vm), Ok(-1));
}

#[test]
fn calc_comparisons_give_zero_or_one() {
    assert_eq!(apply_binary(BinOp::Lt, 1, 2), Ok(1));
    assert_eq!(apply_binary(BinOp::Lt, 2, 2), Ok(0));
    assert_eq!(apply_binary(BinOp::Le, 2, 2), Ok(1));
    assert_eq!(apply_binary(BinOp::Gt, 3, 2), Ok(1));
    assert_eq!(apply_binary(BinOp::Ge, 1, 2), Ok(0));
    assert_eq!(apply_binary(BinOp::Eq, 4, 4), Ok(1));
    assert_eq!(apply_binary(BinOp::Ne, 4, 4), Ok(0));
}

#[test]
fn calc_logical_operators_short_circuit() {
    let vm = ValueManager::new();
    let div0 = || bin(num(1), BinOp::Div, num(0));
    assert_eq!(Exp::LOr(Box::new(num(3)), Box::new(div0())).calc(&vm), Ok(1));
    assert_eq!(Exp::LAnd(Box::new(num(0)), Box::new(div0())).calc(&vm), Ok(0));
    assert_eq!(
        Exp::LOr(Box::new(num(0)), Box::new(div0())).calc(&vm),
        Err(BuildError::DivisionByZero)
    );
    assert_eq!(Exp::LOr(Box::new(num(0)), Box::new(num(9))).calc(&vm), Ok(1));
    assert_eq!(Exp::LOr(Box::new(num(0)), Box::new(num(0))).calc(&vm), Ok(0));
    assert_eq!(Exp::LAnd(Box::new(num(2)), Box::new(num(9))).calc(&vm), Ok(1));
    assert_eq!(Exp::LAnd(Box::new(num(2)), Box::new(num(0))).calc(&vm), Ok(0));
}

#[test]
fn calc_reads_constants_in_scope() {
    let mut vm = ValueManager::new();
    vm.push();
    vm.insert_const("k", 5).unwrap();
    assert_eq!(bin(name("k"), BinOp::Mul, num(2)).calc(&vm), Ok(10));
}

#[test]
fn calc_rejects_variables_and_unknown_names() {
    let mut vm = ValueManager::new();
    vm.push();
    vm.insert_var("v", ValueId(0)).unwrap();
    assert_eq!(name("v").calc(&vm), Err(BuildError::NonConstantExpression));
    assert_eq!(name("nope").calc(&vm), Err(BuildError::UndefinedSymbol));
}

#[test]
fn calc_reports_the_first_error_from_the_left() {
    let mut vm = ValueManager::new();
    vm.push();
    vm.insert_var("v", ValueId(0)).unwrap();
    let e = bin(name("v"), BinOp::Add, bin(num(1), BinOp::Div, num(0)));
    assert_eq!(e.calc(&vm), Err(BuildError::NonConstantExpression));
    let e = bin(bin(num(1), BinOp::Div, num(0)), BinOp::Add, name("v"));
    assert_eq!(e.calc(&vm), Err(BuildError::DivisionByZero));
}
