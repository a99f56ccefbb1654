use lowering::error::BuildError;
use lowering::ir::entities::ValueId;
use lowering::ir::vm::{Decl, ValueManager};

#[test]
fn lookup_in_empty_table_finds_nothing() {
    let vm = ValueManager::new();
    assert!(vm.get("x").is_none());
    assert!(!vm.cur_exist("x"));
}

#[test]
fn insert_then_get_returns_binding() {
    let mut vm = ValueManager::new();
    vm.push();
    assert_eq!(vm.insert_const("x", 7), Ok(()));
    assert_eq!(vm.insert_var("y", ValueId(3)), Ok(()));
    assert_eq!(vm.get("x"), Some(&Decl::Const(7)));
    assert_eq!(vm.get("y"), Some(&Decl::Var(ValueId(3))));
    assert!(vm.cur_exist("x"));
    assert!(vm.get("z").is_none());
}

#[test]
fn duplicate_in_same_frame_is_rejected() {
    let mut vm = ValueManager::new();
    vm.push();
    assert_eq!(vm.insert_const("x", 1), Ok(()));
    assert_eq!(vm.insert_const("x", 2), Err(BuildError::DuplicateDeclaration));
    assert_eq!(vm.insert_var("x", ValueId(0)), Err(BuildError::DuplicateDeclaration));
    assert_eq!(vm.get("x"), Some(&Decl::Const(1)));
}

#[test]
fn inner_frame_shadows_outer() {
    let mut vm = ValueManager::new();
    vm.push();
    vm.insert_const("x", 1).unwrap();
    vm.push();
    assert!(!vm.cur_exist("x"));
    assert_eq!(vm.get("x"), Some(&Decl::Const(1)));
    vm.insert_var("x", ValueId(9)).unwrap();
    assert_eq!(vm.get("x"), Some(&Decl::Var(ValueId(9))));
    vm.pop();
    assert_eq!(vm.get("x"), Some(&Decl::Const(1)));
}

#[test]
fn binding_is_gone_after_pop() {
    let mut vm = ValueManager::new();
    vm.push();
    vm.push();
    vm.insert_const("inner", 5).unwrap();
    assert_eq!(vm.get("inner"), Some(&Decl::Const(5)));
    vm.pop();
    assert!(vm.get("inner").is_none());
}

#[test]
fn pop_on_empty_table_is_harmless() {
    let mut vm = ValueManager::new();
    vm.pop();
    vm.push();
    vm.insert_const("a", 1).unwrap();
    assert_eq!(vm.get("a"), Some(&Decl::Const(1)));
}
