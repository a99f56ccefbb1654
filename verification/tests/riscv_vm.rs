use lowering::ir::entities::ValueId;
use lowering::riscv::inst::{Asm, A0, T0, T1, X0};
use lowering::riscv::vm::{Mem, ValueManager, ValueStore};

fn text(lines: &Vec<Asm>) -> Vec<String> {
    lines.iter().map(|l| l.render()).collect()
}

#[test]
fn fresh_manager_has_four_empty_registers() {
    let vm = ValueManager::new();
    for (r, name) in [(X0, "x0"), (T0, "t0"), (T1, "t1"), (A0, "a0")] {
        let node = vm.get_reg(r).unwrap();
        assert!(node.value.is_none());
        assert_eq!(node.name, name);
        assert_eq!(vm.get_reg_name(r), name);
    }
    assert!(vm.get_reg(3).is_none());
    assert!(vm.get_value_store(&ValueId(0)).is_none());
    assert!(vm.get_value_mem(&ValueId(0)).is_none());
    assert_eq!(vm.cur_offset(), 0);
}

#[test]
fn allocation_takes_lowest_idle_register() {
    let mut vm = ValueManager::new();
    let mut w = Vec::new();
    assert_eq!(vm.alloc_reg(None, &mut w), T0);
    vm.set_value_store(ValueId(0), ValueStore::Reg(T0));
    assert_eq!(vm.alloc_reg(None, &mut w), T1);
    vm.set_value_store(ValueId(1), ValueStore::Reg(T1));
    assert_eq!(vm.alloc_reg(None, &mut w), A0);
    assert!(w.is_empty());
}

#[test]
fn allocation_spills_lowest_free_register_when_none_is_idle() {
    let mut vm = ValueManager::new();
    let mut w = Vec::new();
    vm.allocate_stack_slot(&ValueId(0), 4);
    vm.allocate_stack_slot(&ValueId(1), 4);
    vm.allocate_stack_slot(&ValueId(2), 4);
    vm.set_value_store(ValueId(0), ValueStore::Reg(T0));
    vm.set_value_store(ValueId(1), ValueStore::Reg(T1));
    vm.set_value_store(ValueId(2), ValueStore::Reg(A0));
    assert_eq!(vm.alloc_reg(None, &mut w), T0);
    assert_eq!(text(&w), vec!["  sw t0, 0(sp)"]);
    assert_eq!(vm.get_value_store(&ValueId(0)), Some(ValueStore::Mem(Mem::Stack(0))));
    assert!(vm.get_reg(T0).unwrap().value.is_none());
}

#[test]
fn locked_register_is_never_evicted() {
    let mut vm = ValueManager::new();
    let mut w = Vec::new();
    vm.allocate_stack_slot(&ValueId(0), 4);
    vm.allocate_stack_slot(&ValueId(1), 4);
    vm.allocate_stack_slot(&ValueId(2), 4);
    vm.set_value_store(ValueId(0), ValueStore::Reg(T0));
    vm.set_value_store(ValueId(1), ValueStore::Reg(T1));
    vm.set_value_store(ValueId(2), ValueStore::Reg(A0));
    vm.lock_reg(T0);
    assert_eq!(vm.alloc_reg(None, &mut w), T1);
    vm.lock_reg(T1);
    assert_eq!(vm.alloc_reg(None, &mut w), A0);
    vm.lock_reg(A0);
    assert_eq!(vm.pick_reg(), None);
    vm.unlock_reg(T0);
    assert_eq!(vm.alloc_reg(None, &mut w), T0);
    assert_eq!(text(&w), vec!["  sw t1, 4(sp)", "  sw a0, 8(sp)", "  sw t0, 0(sp)"]);
    assert_eq!(vm.get_value_store(&ValueId(0)), Some(ValueStore::Mem(Mem::Stack(0))));
}

#[test]
fn idle_register_is_preferred_over_lower_occupied_one() {
    let mut vm = ValueManager::new();
    let mut w = Vec::new();
    vm.allocate_stack_slot(&ValueId(0), 4);
    vm.set_value_store(ValueId(0), ValueStore::Reg(T0));
    assert_eq!(vm.alloc_reg(None, &mut w), T1);
    assert!(w.is_empty());
    assert_eq!(vm.get_value_store(&ValueId(0)), Some(ValueStore::Reg(T0)));
}

#[test]
fn specific_register_is_honoured_and_spilled() {
    let mut vm = ValueManager::new();
    let mut w = Vec::new();
    vm.allocate_stack_slot(&ValueId(5), 4);
    vm.set_value_store(ValueId(5), ValueStore::Reg(A0));
    assert_eq!(vm.alloc_reg(Some(A0), &mut w), A0);
    assert_eq!(text(&w), vec!["  sw a0, 0(sp)"]);
    assert!(vm.get_reg(A0).unwrap().value.is_none());
}

#[test]
fn constant_backed_resident_is_dropped_without_store() {
    let mut vm = ValueManager::new();
    let mut w = Vec::new();
    vm.set_value_store(ValueId(0), ValueStore::Mem(Mem::Const(42)));
    assert_eq!(vm.load_to_reg(ValueId(0), Some(T0), &mut w), T0);
    assert_eq!(text(&w), vec!["  li t0, 42"]);
    w.clear();
    assert_eq!(vm.alloc_reg(Some(T0), &mut w), T0);
    assert!(w.is_empty());
    assert_eq!(vm.get_value_store(&ValueId(0)), Some(ValueStore::Mem(Mem::Const(42))));
}

#[test]
fn load_from_stack_emits_lw() {
    let mut vm = ValueManager::new();
    let mut w = Vec::new();
    vm.allocate_stack_slot(&ValueId(0), 4);
    vm.allocate_stack_slot(&ValueId(1), 4);
    assert_eq!(vm.load_to_reg(ValueId(1), None, &mut w), T0);
    assert_eq!(text(&w), vec!["  lw t0, 4(sp)"]);
    assert_eq!(vm.get_value_store(&ValueId(1)), Some(ValueStore::Reg(T0)));
    assert_eq!(vm.get_value_mem(&ValueId(1)), Some(&Mem::Stack(4)));
}

#[test]
fn resident_value_is_returned_without_code() {
    let mut vm = ValueManager::new();
    let mut w = Vec::new();
    vm.allocate_stack_slot(&ValueId(0), 4);
    vm.load_to_reg(ValueId(0), None, &mut w);
    w.clear();
    assert_eq!(vm.load_to_reg(ValueId(0), None, &mut w), T0);
    assert!(w.is_empty());
}

#[test]
fn resident_value_is_moved_to_the_register_asked_for() {
    let mut vm = ValueManager::new();
    let mut w = Vec::new();
    vm.allocate_stack_slot(&ValueId(0), 4);
    vm.load_to_reg(ValueId(0), None, &mut w);
    w.clear();
    assert_eq!(vm.load_to_reg(ValueId(0), Some(A0), &mut w), A0);
    assert_eq!(text(&w), vec!["  mv a0, t0"]);
    assert_eq!(vm.get_value_store(&ValueId(0)), Some(ValueStore::Reg(A0)));
    assert!(vm.get_reg(T0).unwrap().value.is_none());
}

#[test]
fn binding_a_register_replaces_its_resident() {
    let mut vm = ValueManager::new();
    vm.allocate_stack_slot(&ValueId(0), 4);
    vm.allocate_stack_slot(&ValueId(1), 4);
    vm.set_value_store(ValueId(0), ValueStore::Reg(T0));
    vm.set_value_store(ValueId(1), ValueStore::Reg(T0));
    assert_eq!(vm.get_value_store(&ValueId(1)), Some(ValueStore::Reg(T0)));
    assert_eq!(vm.get_value_store(&ValueId(0)), Some(ValueStore::Mem(Mem::Stack(0))));
}

#[test]
fn binding_to_memory_makes_memory_the_location() {
    let mut vm = ValueManager::new();
    vm.set_value_store(ValueId(0), ValueStore::Reg(T1));
    vm.set_value_store(ValueId(0), ValueStore::Mem(Mem::Stack(16)));
    assert_eq!(vm.get_value_store(&ValueId(0)), Some(ValueStore::Mem(Mem::Stack(16))));
    assert!(vm.get_reg(T1).unwrap().value.is_none());
}

#[test]
fn stack_slots_are_bumped_and_not_reused() {
    let mut vm = ValueManager::new();
    vm.set_max_offset(16);
    vm.allocate_stack_slot(&ValueId(0), 4);
    vm.allocate_stack_slot(&ValueId(1), 4);
    vm.allocate_stack_slot(&ValueId(2), 4);
    assert_eq!(vm.get_value_mem(&ValueId(0)), Some(&Mem::Stack(0)));
    assert_eq!(vm.get_value_mem(&ValueId(1)), Some(&Mem::Stack(4)));
    assert_eq!(vm.get_value_mem(&ValueId(2)), Some(&Mem::Stack(8)));
    assert_eq!(vm.cur_offset(), 12);
    assert_eq!(vm.max_offset(), 16);
    vm.set_max_offset(32);
    assert_eq!(vm.cur_offset(), 0);
}

#[test]
fn copy_to_mem_mirrors_without_changing_residency() {
    let mut vm = ValueManager::new();
    let mut w = Vec::new();
    vm.allocate_stack_slot(&ValueId(0), 4);
    vm.set_value_store(ValueId(0), ValueStore::Reg(T1));
    vm.copy_to_mem(T1, &mut w);
    assert_eq!(text(&w), vec!["  sw t1, 0(sp)"]);
    assert_eq!(vm.get_value_store(&ValueId(0)), Some(ValueStore::Reg(T1)));
    w.clear();
    vm.copy_to_mem(T0, &mut w);
    assert!(w.is_empty());
}

#[test]
fn store_to_mem_empties_the_register() {
    let mut vm = ValueManager::new();
    let mut w = Vec::new();
    vm.allocate_stack_slot(&ValueId(0), 4);
    vm.set_value_store(ValueId(0), ValueStore::Reg(T1));
    vm.store_to_mem(T1, &mut w);
    assert_eq!(text(&w), vec!["  sw t1, 0(sp)"]);
    assert_eq!(vm.find_reg(&ValueId(0)), None);
    assert_eq!(vm.pick_reg(), Some(T0));
}

#[test]
fn zero_register_is_never_picked() {
    let mut vm = ValueManager::new();
    vm.lock_reg(T0);
    vm.lock_reg(T1);
    vm.lock_reg(A0);
    vm.unlock_reg(X0);
    assert_eq!(vm.pick_reg(), None);
    vm.unlock_reg(A0);
    assert_eq!(vm.pick_reg(), Some(A0));
}

#[test]
fn register_can_be_changed_in_place() {
    let mut vm = ValueManager::new();
    vm.get_reg_mut(T1).unwrap().value = Some(ValueId(3));
    assert_eq!(vm.get_value_store(&ValueId(3)), Some(ValueStore::Reg(T1)));
    assert_eq!(vm.find_reg(&ValueId(3)), Some(T1));
    vm.get_reg_mut(T1).unwrap().value = None;
    assert!(vm.get_value_store(&ValueId(3)).is_none());
    assert!(vm.get_reg_mut(7).is_none());
}
