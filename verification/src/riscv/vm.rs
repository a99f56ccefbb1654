//! The location manager: where each value of the function lives.
//!
//! A value has a home in memory, a stack slot or a constant that can be
//! loaded again, and may be resident in one register at a time. Registers are
//! handed out lowest number first; a register that holds a value is spilled to
//! the value's home before it is used for another.

use vstd::prelude::*;
use vstd::pervasive::unreached;
use std::collections::HashMap;
use crate::ir::entities::ValueId;
use crate::riscv::inst::{is_reg, reg_name, reg_str, Asm, Reg, A0, T0, T1, X0};

verus! {

broadcast use vstd::std_specs::hash::group_hash_axioms;

/// Home of a value in memory.
#[derive(Copy, Clone, Debug, PartialEq, Eq, Structural)]
pub enum Mem {
    /// Stack slot at a byte offset from the stack pointer.
    Stack(u32),
    /// Constant that an immediate load brings back.
    Const(i32),
}

/// Location of a value.
#[derive(Copy, Clone, Debug, PartialEq, Eq, Structural)]
pub enum ValueStore {
    Reg(Reg),
    Mem(Mem),
}

/// A register of the file: the value resident in it and its name.
#[derive(Copy, Clone, Debug)]
pub struct RegNode {
    pub value: Option<ValueId>,
    pub name: &'static str,
}

/// A register of the file with its lock flag.
struct RegEntry {
    node: RegNode,
    locked: bool,
}

/// State of a register: the value resident in it and its lock flag.
pub ghost struct RegState {
    pub value: Option<ValueId>,
    pub locked: bool,
}

/// Mathematical content of the location manager.
pub ghost struct VmModel {
    /// Offset of the next stack slot in the current frame.
    pub cur_offset: u32,
    /// Size of the current frame.
    pub max_offset: u32,
    /// The register file.
    pub regs: Map<Reg, RegState>,
    /// The home of each value that has one.
    pub mem: Map<ValueId, Mem>,
}

/// Location manager of one function.
pub struct ValueManager {
    cur_offset: u32,
    max_offset: u32,
    regs: Vec<RegEntry>,
    value_mem: HashMap<usize, Mem>,
}

/// Position of a register in the file.
pub open spec fn slot(r: Reg) -> int {
    if r == X0 {
        0
    } else if r == T0 {
        1
    } else if r == T1 {
        2
    } else {
        3
    }
}

/// The register at a position of the file.
pub open spec fn reg_at(i: int) -> Reg {
    if i == 0 {
        X0
    } else if i == 1 {
        T0
    } else if i == 2 {
        T1
    } else {
        A0
    }
}

impl VmModel {
    /// The state of a fresh manager: no register holds a value or is locked,
    /// no value has a home, the frame is empty.
    pub open spec fn init() -> VmModel {
        VmModel {
            cur_offset: 0,
            max_offset: 0,
            regs: Map::new(|r: Reg| is_reg(r), |r: Reg| RegState { value: None, locked: false }),
            mem: Map::empty(),
        }
    }

    /// Well-formedness: the file holds its four registers, and no value is
    /// resident in two of them.
    pub open spec fn wf(self) -> bool {
        &&& self.regs.dom() =~= Set::new(|r: Reg| is_reg(r))
        &&& forall|r1: Reg, r2: Reg|
            is_reg(r1) && is_reg(r2) && r1 != r2 && (#[trigger] self.regs[r1]).value is Some ==> (
            #[trigger] self.regs[r2]).value != self.regs[r1].value
    }

    /// The value resident in a register.
    pub open spec fn resident(self, r: Reg) -> Option<ValueId> {
        self.regs[r].value
    }

    /// The register in which a value is resident.
    pub open spec fn reg_of(self, v: ValueId) -> Option<Reg> {
        if self.regs[X0].value == Some(v) {
            Some(X0)
        } else if self.regs[T0].value == Some(v) {
            Some(T0)
        } else if self.regs[T1].value == Some(v) {
            Some(T1)
        } else if self.regs[A0].value == Some(v) {
            Some(A0)
        } else {
            None
        }
    }

    /// The location of a value: the register in which it is resident, else
    /// its home, if it has one.
    pub open spec fn store_of(self, v: ValueId) -> Option<ValueStore> {
        match self.reg_of(v) {
            Some(r) => Some(ValueStore::Reg(r)),
            None => if self.mem.contains_key(v) {
                Some(ValueStore::Mem(self.mem[v]))
            } else {
                None
            },
        }
    }

    /// The register can be handed out: it is not locked.
    pub open spec fn free(self, r: Reg) -> bool {
        !self.regs[r].locked
    }

    /// The register can be handed out without a spill.
    pub open spec fn idle(self, r: Reg) -> bool {
        !self.regs[r].locked && self.regs[r].value is None
    }

    /// The register that an allocation without preference takes: the lowest
    /// that is idle, else the lowest that is free. The zero register is never
    /// taken.
    pub open spec fn pick(self) -> Option<Reg> {
        if self.idle(T0) {
            Some(T0)
        } else if self.idle(T1) {
            Some(T1)
        } else if self.idle(A0) {
            Some(A0)
        } else if self.free(T0) {
            Some(T0)
        } else if self.free(T1) {
            Some(T1)
        } else if self.free(A0) {
            Some(A0)
        } else {
            None
        }
    }

    /// No register that can be handed out is locked.
    pub open spec fn all_free(self) -> bool {
        self.free(T0) && self.free(T1) && self.free(A0)
    }

    /// The lock flags are those of `other`.
    pub open spec fn same_locks(self, other: VmModel) -> bool {
        forall|r: Reg| is_reg(r) ==> (#[trigger] self.regs[r]).locked == other.regs[r].locked
    }

    /// The registers hold the values that they hold in `other`.
    pub open spec fn same_residents(self, other: VmModel) -> bool {
        forall|r: Reg| is_reg(r) ==> (#[trigger] self.regs[r]).value == other.regs[r].value
    }

    /// The frame and the homes of the values are those of `other`.
    pub open spec fn same_memory(self, other: VmModel) -> bool {
        &&& self.mem == other.mem
        &&& self.cur_offset == other.cur_offset
        &&& self.max_offset == other.max_offset
    }

    /// The state with the lock flag of a register set to `locked`.
    #[verifier::opaque]
    pub open spec fn with_lock(self, r: Reg, locked: bool) -> VmModel {
        if is_reg(r) {
            VmModel { regs: self.regs.insert(r, RegState { locked, ..self.regs[r] }), ..self }
        } else {
            self
        }
    }

    /// The state in which the value is resident nowhere.
    #[verifier::opaque]
    pub open spec fn release(self, v: ValueId) -> VmModel {
        VmModel {
            regs: Map::new(
                |r: Reg| is_reg(r),
                |r: Reg|
                    if self.regs[r].value == Some(v) {
                        RegState { value: None, ..self.regs[r] }
                    } else {
                        self.regs[r]
                    },
            ),
            ..self
        }
    }

    /// The state with a register's residency set.
    #[verifier::opaque]
    pub open spec fn with_resident(self, r: Reg, value: Option<ValueId>) -> VmModel {
        VmModel { regs: self.regs.insert(r, RegState { value, ..self.regs[r] }), ..self }
    }

    /// Records where a value is. In a register: the value becomes resident
    /// there and nowhere else, in place of what the register held. In memory:
    /// that is the value's home from now on, and the value is resident nowhere.
    #[verifier::opaque]
    pub open spec fn bind(self, v: ValueId, store: ValueStore) -> VmModel {
        match store {
            ValueStore::Reg(r) => self.release(v).with_resident(r, Some(v)),
            ValueStore::Mem(m) => {
                let s = self.release(v);
                VmModel { mem: s.mem.insert(v, m), ..s }
            },
        }
    }

    /// The store that writes a register to the stack slot of the value
    /// resident in it; nothing where there is no such value or no such slot.
    pub open spec fn mirror(self, r: Reg) -> Seq<Asm> {
        match self.regs[r].value {
            Some(v) => if self.mem.contains_key(v) {
                match self.mem[v] {
                    Mem::Stack(off) => seq![Asm::Sw(r, off)],
                    Mem::Const(_) => Seq::empty(),
                }
            } else {
                Seq::empty()
            },
            None => Seq::empty(),
        }
    }

    /// Empties a register: the value resident in it is written to its stack
    /// slot, if it has one, and is resident no more.
    pub open spec fn spill(self, r: Reg) -> (VmModel, Seq<Asm>) {
        (self.with_resident(r, None), self.mirror(r))
    }

    /// The register that an allocation takes: the one asked for, else the one
    /// picked.
    pub open spec fn choice(self, specific: Option<Reg>) -> Reg {
        match specific {
            Some(r) => r,
            None => self.pick().unwrap(),
        }
    }

    /// Whether an allocation can be served: the register asked for is one of
    /// the file, or, without preference, some register is free.
    pub open spec fn can_alloc(self, specific: Option<Reg>) -> bool {
        match specific {
            Some(r) => is_reg(r),
            None => self.pick() is Some,
        }
    }

    /// Hands out a register, empty: the state, the register and the code of
    /// the spill.
    pub open spec fn alloc_reg(self, specific: Option<Reg>) -> (VmModel, Reg, Seq<Asm>) {
        let r = self.choice(specific);
        let (s, code) = self.spill(r);
        (s, r, code)
    }

    /// Brings a value into a register: the state, the register and the code.
    /// A value that is resident stays where it is unless a register is asked
    /// for; then it is copied there. A value in memory is loaded.
    #[verifier::opaque]
    pub open spec fn load_to_reg(self, v: ValueId, specific: Option<Reg>) -> (
        VmModel,
        Reg,
        Seq<Asm>,
    ) {
        match self.store_of(v) {
            Some(ValueStore::Reg(r0)) => match specific {
                None => (self, r0, Seq::empty()),
                Some(_) => {
                    let (s, r, code) = self.alloc_reg(specific);
                    (
                        s.bind(v, ValueStore::Reg(r)),
                        r,
                        if r != r0 {
                            code.push(Asm::Mv(r, r0))
                        } else {
                            code
                        },
                    )
                },
            },
            Some(ValueStore::Mem(m)) => {
                let (s, r, code) = self.alloc_reg(specific);
                (
                    s.bind(v, ValueStore::Reg(r)),
                    r,
                    code.push(
                        match m {
                            Mem::Const(i) => Asm::Li(r, i),
                            Mem::Stack(off) => Asm::Lw(r, off),
                        },
                    ),
                )
            },
            None => (self, X0, Seq::empty()),
        }
    }

    /// Gives a value the next stack slot of the frame as its home.
    #[verifier::opaque]
    pub open spec fn allocate_stack_slot(self, v: ValueId, size: u32) -> VmModel {
        let s = self.bind(v, ValueStore::Mem(Mem::Stack(self.cur_offset)));
        VmModel { cur_offset: (self.cur_offset + size) as u32, ..s }
    }

    /// Starts a frame of that size: slots are counted from its start again.
    pub open spec fn frame(self, max_offset: u32) -> VmModel {
        VmModel { cur_offset: 0, max_offset, ..self }
    }
}

/// Whether a register can be handed out by an allocation without preference.
pub open spec fn allocatable(r: Reg) -> bool {
    r == T0 || r == T1 || r == A0
}

/// An allocation without preference takes an idle register if there is one,
/// else a free one, and always the lowest-numbered of those; it fails exactly
/// if every register that can be handed out is locked.
pub proof fn law_pick_lowest(vm: VmModel)
    ensures
        match vm.pick() {
            Some(r) => {
                &&& allocatable(r)
                &&& vm.free(r)
                &&& forall|q: Reg| allocatable(q) && vm.idle(q) ==> vm.idle(r) && r <= q
                &&& forall|q: Reg| allocatable(q) && vm.free(q) && !vm.idle(r) ==> r <= q
            },
            None => forall|q: Reg| allocatable(q) ==> !vm.free(q),
        },
{
}

/// A register that is handed out holds no value afterwards, no lock changes,
/// and no value loses its home.
pub proof fn law_alloc_reg(vm: VmModel, specific: Option<Reg>)
    requires
        vm.wf(),
        vm.can_alloc(specific),
    ensures
        vm.alloc_reg(specific).0.wf(),
        vm.alloc_reg(specific).0.resident(vm.alloc_reg(specific).1) is None,
        vm.alloc_reg(specific).0.same_locks(vm),
        vm.alloc_reg(specific).0.mem == vm.mem,
        specific is None ==> allocatable(vm.alloc_reg(specific).1) && vm.free(
            vm.alloc_reg(specific).1,
        ),
        specific matches Some(r) ==> vm.alloc_reg(specific).1 == r,
{
    reveal(VmModel::with_resident);
}

impl View for ValueManager {
    type V = VmModel;

    closed spec fn view(&self) -> VmModel {
        VmModel {
            cur_offset: self.cur_offset,
            max_offset: self.max_offset,
            regs: Map::new(
                |r: Reg| is_reg(r),
                |r: Reg|
                    RegState {
                        value: self.regs@[slot(r)].node.value,
                        locked: self.regs@[slot(r)].locked,
                    },
            ),
            mem: Map::new(
                |v: ValueId| self.value_mem@.contains_key(v.0),
                |v: ValueId| self.value_mem@[v.0],
            ),
        }
    }
}

/// Position of a register in the file, if it is one of the file.
fn index_of(r: Reg) -> (i: Option<usize>)
    ensures
        match i {
            Some(i) => is_reg(r) && i == slot(r) && reg_at(i as int) == r,
            None => !is_reg(r),
        },
{
    if r == X0 {
        Some(0)
    } else if r == T0 {
        Some(1)
    } else if r == T1 {
        Some(2)
    } else if r == A0 {
        Some(3)
    } else {
        None
    }
}

/// Whether the resident of a register is that value.
fn same(a: Option<ValueId>, v: ValueId) -> (b: bool)
    ensures
        b == (a == Some(v)),
{
    match a {
        Some(w) => w.0 == v.0,
        None => false,
    }
}

impl ValueManager {
    /// The file has its four registers under their names.
    pub closed spec fn inv(&self) -> bool {
        &&& self.regs@.len() == 4
        &&& forall|i: int| 0 <= i < 4 ==> (#[trigger] self.regs@[i]).node.name@ == reg_name(reg_at(i))
    }

    /// Well-formedness of the manager.
    pub open spec fn wf(&self) -> bool {
        self.inv() && self@.wf()
    }

    /// A manager in which no register holds a value and no value has a home.
    pub fn new() -> (vm: Self)
        ensures
            vm.wf(),
            vm@ == VmModel::init(),
    {
        let mut regs: Vec<RegEntry> = Vec::new();
        regs.push(RegEntry { node: RegNode { value: None, name: reg_str(X0) }, locked: false });
        regs.push(RegEntry { node: RegNode { value: None, name: reg_str(T0) }, locked: false });
        regs.push(RegEntry { node: RegNode { value: None, name: reg_str(T1) }, locked: false });
        regs.push(RegEntry { node: RegNode { value: None, name: reg_str(A0) }, locked: false });
        let vm = ValueManager { cur_offset: 0, max_offset: 0, regs, value_mem: HashMap::new() };
        proof {
            assert(vm@.regs =~= VmModel::init().regs);
            assert(vm@.mem =~= VmModel::init().mem);
        }
        vm
    }

    /// Offset of the next stack slot in the current frame.
    pub fn cur_offset(&self) -> (n: u32)
        ensures
            n == self@.cur_offset,
    {
        self.cur_offset
    }

    /// Size of the current frame.
    pub fn max_offset(&self) -> (n: u32)
        ensures
            n == self@.max_offset,
    {
        self.max_offset
    }

    /// Starts a frame of that size.
    pub fn set_max_offset(&mut self, max_offset: u32)
        requires
            old(self).wf(),
        ensures
            final(self).wf(),
            final(self)@ == old(self)@.frame(max_offset),
    {
        self.max_offset = max_offset;
        self.cur_offset = 0;
    }

    /// The register of that number, if the file has one.
    pub fn get_reg(&self, reg: Reg) -> (r: Option<&RegNode>)
        requires
            self.wf(),
        ensures
            match r {
                Some(node) => is_reg(reg) && node.value == self@.resident(reg) && node.name@
                    == reg_name(reg),
                None => !is_reg(reg),
            },
    {
        match index_of(reg) {
            Some(i) => Some(&self.regs[i].node),
            None => None,
        }
    }

    /// The register of that number, if the file has one, for the caller to
    /// change. What the caller leaves as the resident value is the register's
    /// resident afterwards; nothing else changes. The manager stays
    /// well-formed if the caller keeps the name and does not make a value
    /// resident that another register holds.
    pub fn get_reg_mut(&mut self, reg: Reg) -> (r: Option<&mut RegNode>)
        requires
            old(self).wf(),
        ensures
            match r {
                Some(node) => {
                    &&& is_reg(reg)
                    &&& node.value == old(self)@.resident(reg)
                    &&& node.name@ == reg_name(reg)
                    &&& final(self)@.regs =~= old(self)@.with_resident(
                        reg,
                        final(node).value,
                    ).regs
                    &&& final(self)@.same_memory(old(self)@)
                    &&& final(node).name@ == reg_name(reg) ==> final(self).inv()
                },
                None => !is_reg(reg) && *final(self) == *old(self),
            },
    {
        reveal(VmModel::with_resident);
        match index_of(reg) {
            Some(i) => Some(&mut self.regs[i].node),
            None => None,
        }
    }

    /// The name of a register of the file.
    pub fn get_reg_name(&self, reg: Reg) -> (name: &'static str)
        requires
            self.wf(),
            is_reg(reg),
        ensures
            name@ == reg_name(reg),
    {
        match index_of(reg) {
            Some(i) => self.regs[i].node.name,
            None => unreached(),
        }
    }

    /// Locks a register: it is not handed out until it is unlocked.
    pub fn lock_reg(&mut self, reg: Reg)
        requires
            old(self).wf(),
        ensures
            final(self).wf(),
            final(self)@ == old(self)@.with_lock(reg, true),
            final(self)@.same_residents(old(self)@),
            final(self)@.same_memory(old(self)@),
            forall|r: Reg|
                is_reg(r) ==> (#[trigger] final(self)@.regs[r]).locked == (r == reg
                    || old(self)@.regs[r].locked),
    {
        self.set_lock(reg, true);
    }

    /// Unlocks a register.
    pub fn unlock_reg(&mut self, reg: Reg)
        requires
            old(self).wf(),
        ensures
            final(self).wf(),
            final(self)@ == old(self)@.with_lock(reg, false),
            final(self)@.same_residents(old(self)@),
            final(self)@.same_memory(old(self)@),
            forall|r: Reg|
                is_reg(r) ==> (#[trigger] final(self)@.regs[r]).locked == (r != reg
                    && old(self)@.regs[r].locked),
    {
        self.set_lock(reg, false);
    }

    /// Sets the lock flag of a register of the file; another number changes
    /// nothing.
    fn set_lock(&mut self, reg: Reg, locked: bool)
        requires
            old(self).wf(),
        ensures
            final(self).wf(),
            final(self)@ == old(self)@.with_lock(reg, locked),
            final(self)@.same_residents(old(self)@),
            final(self)@.same_memory(old(self)@),
            forall|r: Reg|
                is_reg(r) ==> (#[trigger] final(self)@.regs[r]).locked == (if r == reg {
                    locked
                } else {
                    old(self)@.regs[r].locked
                }),
    {
        reveal(VmModel::with_lock);
        match index_of(reg) {
            Some(i) => {
                self.regs[i].locked = locked;
                proof {
                    assert(self@.regs =~= old(self)@.with_lock(reg, locked).regs);
                }
            },
            None => {},
        }
    }

    /// Sets the resident of a register.
    fn set_resident(&mut self, reg: Reg, value: Option<ValueId>)
        requires
            old(self).inv(),
            is_reg(reg),
        ensures
            final(self).inv(),
            final(self)@ == old(self)@.with_resident(reg, value),
            final(self)@.same_locks(old(self)@),
            final(self)@.same_memory(old(self)@),
            final(self)@.regs.dom() == old(self)@.regs.dom(),
            forall|r: Reg|
                is_reg(r) ==> (#[trigger] final(self)@.regs[r]).value == (if r == reg {
                    value
                } else {
                    old(self)@.regs[r].value
                }),
    {
        reveal(VmModel::with_resident);
        match index_of(reg) {
            Some(i) => {
                self.regs[i].node.value = value;
                proof {
                    assert(self@.regs =~= old(self)@.with_resident(reg, value).regs);
                }
            },
            None => {},
        }
    }

    /// Makes a value resident nowhere.
    fn release(&mut self, value: ValueId)
        requires
            old(self).wf(),
        ensures
            final(self).wf(),
            final(self)@ == old(self)@.release(value),
            final(self)@.reg_of(value) is None,
            final(self)@.same_locks(old(self)@),
            final(self)@.same_memory(old(self)@),
            forall|r: Reg|
                is_reg(r) ==> (#[trigger] final(self)@.regs[r]).value == (if old(self)@.regs[r].value
                    == Some(value) {
                    None
                } else {
                    old(self)@.regs[r].value
                }),
    {
        reveal(VmModel::release);
        let ghost before = *self;
        let mut i: usize = 0;
        while i < 4
            invariant
                i <= 4,
                self.regs@.len() == 4,
                before.regs@.len() == 4,
                self.cur_offset == before.cur_offset,
                self.max_offset == before.max_offset,
                self.value_mem == before.value_mem,
                forall|j: int|
                    0 <= j < 4 ==> (#[trigger] self.regs@[j]).node.name == before.regs@[j].node.name
                        && self.regs@[j].locked == before.regs@[j].locked,
                forall|j: int|
                    0 <= j < i ==> (#[trigger] self.regs@[j]).node.value == (if before.regs@[j].node.value
                        == Some(value) {
                        None
                    } else {
                        before.regs@[j].node.value
                    }),
                forall|j: int|
                    i <= j < 4 ==> (#[trigger] self.regs@[j]).node.value
                        == before.regs@[j].node.value,
            decreases 4 - i,
        {
            if same(self.regs[i].node.value, value) {
                self.regs[i].node.value = None;
            }
            i += 1;
        }
        proof {
            assert(self@.regs =~= before@.release(value).regs);
        }
    }

    /// The register in which a value is resident.
    pub fn find_reg(&self, value: &ValueId) -> (r: Option<Reg>)
        requires
            self.wf(),
        ensures
            r == self@.reg_of(*value),
    {
        if same(self.regs[0].node.value, *value) {
            Some(X0)
        } else if same(self.regs[1].node.value, *value) {
            Some(T0)
        } else if same(self.regs[2].node.value, *value) {
            Some(T1)
        } else if same(self.regs[3].node.value, *value) {
            Some(A0)
        } else {
            None
        }
    }

    /// The home of a value, if it has one.
    pub fn get_value_mem(&self, value: &ValueId) -> (r: Option<&Mem>)
        ensures
            match r {
                Some(m) => self@.mem.contains_key(*value) && self@.mem[*value] == *m,
                None => !self@.mem.contains_key(*value),
            },
    {
        self.value_mem.get(&value.0)
    }

    /// The location of a value: the register in which it is resident, else
    /// its home, if it has one.
    pub fn get_value_store(&self, value: &ValueId) -> (r: Option<ValueStore>)
        requires
            self.wf(),
        ensures
            r == self@.store_of(*value),
    {
        match self.find_reg(value) {
            Some(reg) => Some(ValueStore::Reg(reg)),
            None => match self.value_mem.get(&value.0) {
                Some(mem) => Some(ValueStore::Mem(*mem)),
                None => None,
            },
        }
    }

    /// Records where a value is: in a register, where it then is resident in
    /// place of what the register held, or in memory, which then is its home.
    pub fn set_value_store(&mut self, value: ValueId, store: ValueStore)
        requires
            old(self).wf(),
            store matches ValueStore::Reg(r) ==> is_reg(r),
        ensures
            final(self).wf(),
            final(self)@ == old(self)@.bind(value, store),
            final(self)@.same_locks(old(self)@),
            final(self)@.cur_offset == old(self)@.cur_offset,
            final(self)@.max_offset == old(self)@.max_offset,
            match store {
                ValueStore::Reg(r) => final(self)@.mem == old(self)@.mem && final(self)@.reg_of(
                    value,
                ) == Some(r),
                ValueStore::Mem(m) => final(self)@.mem == old(self)@.mem.insert(value, m)
                    && final(self)@.reg_of(value) is None,
            },
    {
        reveal(VmModel::bind);
        self.release(value);
        match store {
            ValueStore::Reg(r) => {
                self.set_resident(r, Some(value));
            },
            ValueStore::Mem(m) => {
                self.value_mem.insert(value.0, m);
                proof {
                    let s = old(self)@.release(value);
                    assert(self@.mem =~= s.mem.insert(value, m));
                }
            },
        }
    }

    /// Writes a register to the stack slot of the value resident in it, if
    /// there is such a value and it has such a slot. Nothing else changes.
    pub fn copy_to_mem(&mut self, reg: Reg, w: &mut Vec<Asm>)
        requires
            old(self).wf(),
            is_reg(reg),
        ensures
            final(self).wf(),
            final(self)@ == old(self)@,
            final(w)@ == old(w)@ + old(self)@.mirror(reg),
    {
        let resident = match index_of(reg) {
            Some(i) => self.regs[i].node.value,
            None => None,
        };
        match resident {
            Some(value) => match self.value_mem.get(&value.0) {
                Some(Mem::Stack(off)) => {
                    w.push(Asm::Sw(reg, *off));
                },
                _ => {
                },
            },
            None => {
            },
        }
    }

    /// Empties a register: the value resident in it is written to its stack
    /// slot, if it has one, and is resident no more.
    pub fn store_to_mem(&mut self, reg: Reg, w: &mut Vec<Asm>)
        requires
            old(self).wf(),
            is_reg(reg),
        ensures
            final(self).wf(),
            final(self)@ == old(self)@.spill(reg).0,
            final(w)@ == old(w)@ + old(self)@.spill(reg).1,
            final(self)@.same_locks(old(self)@),
            final(self)@.same_memory(old(self)@),
            final(self)@.resident(reg) is None,
    {
        self.copy_to_mem(reg, w);
        self.set_resident(reg, None);
    }

    /// The register that an allocation without preference takes.
    pub fn pick_reg(&self) -> (r: Option<Reg>)
        requires
            self.wf(),
        ensures
            r == self@.pick(),
    {
        let t0 = &self.regs[1];
        let t1 = &self.regs[2];
        let a0 = &self.regs[3];
        if !t0.locked && t0.node.value.is_none() {
            Some(T0)
        } else if !t1.locked && t1.node.value.is_none() {
            Some(T1)
        } else if !a0.locked && a0.node.value.is_none() {
            Some(A0)
        } else if !t0.locked {
            Some(T0)
        } else if !t1.locked {
            Some(T1)
        } else if !a0.locked {
            Some(A0)
        } else {
            None
        }
    }

    /// Hands out a register, empty: the one asked for, else the lowest that
    /// is idle, else the lowest that is free. What it held is spilled.
    pub fn alloc_reg(&mut self, specific: Option<Reg>, w: &mut Vec<Asm>) -> (reg: Reg)
        requires
            old(self).wf(),
            old(self)@.can_alloc(specific),
        ensures
            final(self).wf(),
            final(self)@ == old(self)@.alloc_reg(specific).0,
            reg == old(self)@.alloc_reg(specific).1,
            final(w)@ == old(w)@ + old(self)@.alloc_reg(specific).2,
            is_reg(reg),
            final(self)@.resident(reg) is None,
            final(self)@.same_locks(old(self)@),
            final(self)@.same_memory(old(self)@),
    {
        let reg = match specific {
            Some(r) => r,
            None => match self.pick_reg() {
                Some(r) => r,
                None => unreached(),
            },
        };
        self.store_to_mem(reg, w);
        reg
    }

    /// Brings a value into a register and returns the register.
    pub fn load_to_reg(&mut self, value: ValueId, specific: Option<Reg>, w: &mut Vec<Asm>) -> (reg:
        Reg)
        requires
            old(self).wf(),
            old(self)@.store_of(value) is Some,
            old(self)@.can_alloc(specific) || (specific is None && old(self)@.reg_of(value) is Some),
        ensures
            final(self).wf(),
            final(self)@ == old(self)@.load_to_reg(value, specific).0,
            reg == old(self)@.load_to_reg(value, specific).1,
            final(w)@ == old(w)@ + old(self)@.load_to_reg(value, specific).2,
            is_reg(reg),
            final(self)@.reg_of(value) == Some(reg),
            final(self)@.same_locks(old(self)@),
            final(self)@.same_memory(old(self)@),
    {
        reveal(VmModel::load_to_reg);
        match self.get_value_store(&value) {
            Some(ValueStore::Mem(m)) => {
                let reg = self.alloc_reg(specific, w);
                self.set_value_store(value, ValueStore::Reg(reg));
                match m {
                    Mem::Const(i) => {
                        w.push(Asm::Li(reg, i));
                    },
                    Mem::Stack(off) => {
                        w.push(Asm::Lw(reg, off));
                    },
                }
                reg
            },
            Some(ValueStore::Reg(r0)) => match specific {
                Some(_) => {
                    let reg = self.alloc_reg(specific, w);
                    self.set_value_store(value, ValueStore::Reg(reg));
                    if reg != r0 {
                        w.push(Asm::Mv(reg, r0));
                    }
                    reg
                },
                None => {
                    r0
                },
            },
            None => unreached(),
        }
    }

    /// Gives a value the next stack slot of the frame as its home.
    pub fn allocate_stack_slot(&mut self, value: &ValueId, size: u32)
        requires
            old(self).wf(),
            old(self)@.cur_offset + size <= u32::MAX,
        ensures
            final(self).wf(),
            final(self)@ == old(self)@.allocate_stack_slot(*value, size),
            final(self)@.same_locks(old(self)@),
            final(self)@.mem == old(self)@.mem.insert(*value, Mem::Stack(old(self)@.cur_offset)),
            final(self)@.cur_offset == old(self)@.cur_offset + size,
            final(self)@.max_offset == old(self)@.max_offset,
    {
        reveal(VmModel::allocate_stack_slot);
        self.set_value_store(*value, ValueStore::Mem(Mem::Stack(self.cur_offset)));
        self.cur_offset += size;
    }
}

} // verus!
