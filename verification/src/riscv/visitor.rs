//! The generator: walks a program in layout order and emits assembly.

use vstd::prelude::*;
use crate::error::AsmError;
use crate::ir::entities::{BlockId, BinaryOp, FuncModel, FunctionData, Module, ValueId, ValueKind};
use crate::riscv::inst::{listing_text, render_listing, Asm, Opcode, Reg, A0};
use crate::riscv::vm::{Mem, ValueManager, ValueStore, VmModel};

verus! {

/// Bytes of a stack slot.
pub const SLOT_SIZE: u32 = 4;

/// The largest frame: what one immediate of the target can address.
pub const MAX_FRAME: u32 = 2048;

/// Whether an instruction of a block gets a stack slot: its result is a
/// 32-bit integer or a pointer.
pub open spec fn takes_slot(func: FuncModel, inst: ValueId) -> bool {
    func.has_value(inst) && func.kind(inst).needs_slot()
}

/// How many of the instructions get a stack slot.
pub open spec fn slot_count(func: FuncModel, insts: Seq<ValueId>) -> nat
    decreases insts.len(),
{
    if insts.len() == 0 {
        0
    } else {
        slot_count(func, insts.drop_last()) + if takes_slot(func, insts.last()) {
            1nat
        } else {
            0nat
        }
    }
}

/// Bytes of a frame with `k` slots: four bytes each, rounded up to a multiple
/// of 16.
pub open spec fn frame_bytes(k: nat) -> nat {
    (4 * k + 15) / 16 * 16
}

/// The frame is the least multiple of 16 that holds its slots.
pub proof fn law_frame_bytes(k: nat)
    ensures
        frame_bytes(k) % 16 == 0,
        4 * k <= frame_bytes(k) < 4 * k + 16,
{
}

/// A frame is too large exactly if it has more than 512 slots.
pub proof fn law_frame_limit(k: nat)
    ensures
        frame_bytes(k) > MAX_FRAME <==> k > 512,
{
}

/// More instructions do not need fewer slots.
pub proof fn lemma_slot_count_take(func: FuncModel, insts: Seq<ValueId>, i: int)
    requires
        0 <= i < insts.len(),
    ensures
        slot_count(func, insts.take(i + 1)) == slot_count(func, insts.take(i)) + if takes_slot(
            func,
            insts[i],
        ) {
            1nat
        } else {
            0nat
        },
{
    assert(insts.take(i + 1).drop_last() =~= insts.take(i));
}

/// Size of the frame of a block, or the error of a frame that is too large.
pub fn frame_size(func: &FunctionData, bb: BlockId) -> (r: Result<u32, AsmError>)
    requires
        func@.has_block(bb),
    ensures
        match r {
            Ok(size) => size == frame_bytes(slot_count(func@, func@.bbs[bb.0 as int].insts))
                && size <= MAX_FRAME,
            Err(err) => err == AsmError::FrameOverflow && frame_bytes(
                slot_count(func@, func@.bbs[bb.0 as int].insts),
            ) > MAX_FRAME,
        },
{
    let insts = &func.bbs[bb.0].insts;
    let mut k: usize = 0;
    let mut i: usize = 0;
    while i < insts.len()
        invariant
            i <= insts.len(),
            k <= i,
            k == slot_count(func@, insts@.take(i as int)),
        decreases insts.len() - i,
    {
        proof {
            lemma_slot_count_take(func@, insts@, i as int);
        }
        let v = insts[i];
        if v.0 < func.values.len() {
            match func.values[v.0] {
                ValueKind::Alloc => {
                    k += 1;
                },
                ValueKind::Load(_) => {
                    k += 1;
                },
                ValueKind::Binary(_, _, _) => {
                    k += 1;
                },
                _ => {},
            }
        }
        i += 1;
    }
    proof {
        assert(insts@.take(insts.len() as int) =~= insts@);
    }
    if k > 512 {
        Err(AsmError::FrameOverflow)
    } else {
        let bytes: u32 = (4 * (k as u32) + 15) / 16 * 16;
        Ok(bytes)
    }
}

/// The code of a binary operator with destination `rd` and operands in `a`
/// and `b`.
pub open spec fn op_code(op: BinaryOp, rd: Reg, a: Reg, b: Reg) -> Seq<Asm> {
    match op {
        BinaryOp::Eq => seq![Asm::Op(Opcode::Sub, rd, a, b), Asm::Seqz(rd, rd)],
        BinaryOp::NotEq => seq![Asm::Op(Opcode::Sub, rd, a, b), Asm::Snez(rd, rd)],
        BinaryOp::Lt => seq![Asm::Op(Opcode::Slt, rd, a, b)],
        BinaryOp::Gt => seq![Asm::Op(Opcode::Slt, rd, b, a)],
        BinaryOp::Le => seq![Asm::Op(Opcode::Slt, rd, b, a), Asm::Seqz(rd, rd)],
        BinaryOp::Ge => seq![Asm::Op(Opcode::Slt, rd, a, b), Asm::Seqz(rd, rd)],
        BinaryOp::And => seq![Asm::Op(Opcode::And, rd, a, b)],
        BinaryOp::Or => seq![Asm::Op(Opcode::Or, rd, a, b)],
        BinaryOp::Add => seq![Asm::Op(Opcode::Add, rd, a, b)],
        BinaryOp::Sub => seq![Asm::Op(Opcode::Sub, rd, a, b)],
        BinaryOp::Mul => seq![Asm::Op(Opcode::Mul, rd, a, b)],
        BinaryOp::Div => seq![Asm::Op(Opcode::Div, rd, a, b)],
        BinaryOp::Mod => seq![Asm::Op(Opcode::Rem, rd, a, b)],
    }
}

/// State of a generation in progress: the location manager and the listing
/// so far.
pub struct VisitorImpl {
    pub vm: ValueManager,
    pub w: Vec<Asm>,
}

/// Mathematical content of a generation in progress.
pub ghost struct Gen {
    pub vm: VmModel,
    pub code: Seq<Asm>,
}

impl View for VisitorImpl {
    type V = Gen;

    open spec fn view(&self) -> Gen {
        Gen { vm: self.vm@, code: self.w@ }
    }
}

impl Gen {
    /// The state in which generation starts.
    pub open spec fn start() -> Gen {
        Gen { vm: VmModel::init(), code: Seq::empty() }
    }

    /// Adds lines to the listing.
    pub open spec fn emit(self, lines: Seq<Asm>) -> Gen {
        Gen { code: self.code + lines, ..self }
    }

    /// Gives an integer literal its home: the constant itself.
    pub open spec fn bind_const(self, func: FuncModel, v: ValueId) -> Gen {
        if func.has_value(v) {
            match func.kind(v) {
                ValueKind::Integer(i) => Gen {
                    vm: self.vm.bind(v, ValueStore::Mem(Mem::Const(i))),
                    ..self
                },
                _ => self,
            }
        } else {
            self
        }
    }

    /// Gives an instruction its stack slot.
    pub open spec fn slot(self, inst: ValueId) -> Gen {
        Gen { vm: self.vm.allocate_stack_slot(inst, SLOT_SIZE), ..self }
    }

    /// Hands out a register.
    pub open spec fn alloc_reg(self, specific: Option<Reg>) -> (Gen, Reg) {
        let (vm, r, code) = self.vm.alloc_reg(specific);
        (Gen { vm, code: self.code + code }, r)
    }

    /// Brings a value into a register.
    pub open spec fn load(self, v: ValueId, specific: Option<Reg>) -> (Gen, Reg) {
        let (vm, r, code) = self.vm.load_to_reg(v, specific);
        (Gen { vm, code: self.code + code }, r)
    }

    /// Makes a value resident in a register.
    pub open spec fn bind_reg(self, v: ValueId, r: Reg) -> Gen {
        Gen { vm: self.vm.bind(v, ValueStore::Reg(r)), ..self }
    }

    /// Sets the lock flag of a register.
    pub open spec fn lock(self, r: Reg, locked: bool) -> Gen {
        Gen { vm: self.vm.with_lock(r, locked), ..self }
    }

    /// Writes a register to the stack slot of the value resident in it.
    pub open spec fn mirror(self, r: Reg) -> Gen {
        self.emit(self.vm.mirror(r))
    }

    /// Well-formedness between instructions: the manager is well-formed and
    /// no register is locked.
    pub open spec fn wf(self) -> bool {
        self.vm.wf() && self.vm.all_free()
    }

    /// The value is resident in a register, has a stack slot, and the last
    /// line of the listing stores that register to that slot.
    pub open spec fn mirrored(self, v: ValueId) -> bool {
        &&& self.vm.reg_of(v) matches Some(r)
        &&& self.vm.mem.contains_key(v)
        &&& self.vm.mem[v] matches Mem::Stack(off)
        &&& self.code.len() > 0
        &&& self.code.last() == Asm::Sw(r, off)
    }
}

/// The value has a stack slot as its home.
pub open spec fn has_slot(vm: VmModel, o: ValueId) -> bool {
    vm.mem.contains_key(o) && vm.mem[o] is Stack
}

/// The value is a literal of the function.
pub open spec fn is_literal(func: FuncModel, o: ValueId) -> bool {
    func.has_value(o) && func.kind(o) is Integer
}

/// The value can be brought into a register: it is a literal of the function
/// or has a stack slot as its home.
pub open spec fn loadable(vm: VmModel, func: FuncModel, o: ValueId) -> bool {
    is_literal(func, o) || has_slot(vm, o)
}

/// The operands of an instruction of that kind have the locations that its
/// code needs.
pub open spec fn ready(vm: VmModel, func: FuncModel, kind: ValueKind) -> bool {
    match kind {
        ValueKind::Load(src) => has_slot(vm, src),
        ValueKind::Store(value, dest) => loadable(vm, func, value) && has_slot(vm, dest)
            && !is_literal(func, dest),
        ValueKind::Binary(_, lhs, rhs) => loadable(vm, func, lhs) && loadable(vm, func, rhs),
        ValueKind::Return(Some(value)) => loadable(vm, func, value),
        _ => true,
    }
}

/// Every value that has a stack slot in `old` and is no literal of the
/// function has one in `new`.
#[verifier::opaque]
pub open spec fn keeps_slots(old: VmModel, new: VmModel, func: FuncModel) -> bool {
    forall|o: ValueId| #[trigger] has_slot(old, o) && !is_literal(func, o) ==> has_slot(new, o)
}

/// A value keeps its stack slot.
pub proof fn lemma_kept(old: VmModel, new: VmModel, func: FuncModel, o: ValueId)
    requires
        keeps_slots(old, new, func),
        has_slot(old, o),
        !is_literal(func, o),
    ensures
        has_slot(new, o),
{
    reveal(keeps_slots);
}

/// Slots are kept where the homes are the same, where a value gets a stack
/// slot, and where a literal of the function gets its home.
pub proof fn lemma_keeps(old: VmModel, new: VmModel, func: FuncModel, v: ValueId, m: Mem)
    requires
        new.mem == old.mem || new.mem == old.mem.insert(v, m),
        m is Stack || is_literal(func, v),
    ensures
        keeps_slots(old, new, func),
{
    reveal(keeps_slots);
}

/// Slots that are kept twice are kept.
pub proof fn lemma_keeps_twice(old: VmModel, mid: VmModel, new: VmModel, func: FuncModel)
    requires
        keeps_slots(old, mid, func),
        keeps_slots(mid, new, func),
    ensures
        keeps_slots(old, new, func),
{
    reveal(keeps_slots);
}

/// The code of a load: the result gets its slot, the source is brought into a
/// register, which from then on holds the result, and is written to the slot.
pub open spec fn gen_load(g: Gen, inst: ValueId, src: ValueId) -> Result<Gen, AsmError> {
    let g1 = g.slot(inst);
    if g1.vm.store_of(src) is None {
        Err(AsmError::Malformed)
    } else {
        let (g2, r) = g1.load(src, None);
        Ok(g2.bind_reg(inst, r).mirror(r))
    }
}

/// The code of a store: the value is brought into a register, which from then
/// on holds the variable, and is written to the variable's slot.
pub open spec fn gen_store(g: Gen, func: FuncModel, value: ValueId, dest: ValueId) -> Result<
    Gen,
    AsmError,
> {
    let g1 = g.bind_const(func, value);
    if g1.vm.store_of(value) is None || !(g1.vm.mem.contains_key(dest) && g1.vm.mem[dest] is Stack) {
        Err(AsmError::Malformed)
    } else {
        let (g2, r) = g1.load(value, None);
        Ok(g2.bind_reg(dest, r).mirror(r))
    }
}

/// The code of a binary operator: the result gets its slot and a register,
/// the operands are brought into registers while those taken so far are
/// locked, the operator is applied, and the result is written to its slot.
pub open spec fn gen_binary(
    g: Gen,
    func: FuncModel,
    inst: ValueId,
    op: BinaryOp,
    lhs: ValueId,
    rhs: ValueId,
) -> Result<Gen, AsmError> {
    let g1 = g.slot(inst).bind_const(func, lhs).bind_const(func, rhs);
    let (g2, rd) = g1.alloc_reg(None);
    let g3 = g2.bind_reg(inst, rd).lock(rd, true);
    if g3.vm.store_of(lhs) is None {
        Err(AsmError::Malformed)
    } else {
        let (g4, a) = g3.load(lhs, None);
        let g5 = g4.lock(a, true);
        if g5.vm.store_of(rhs) is None {
            Err(AsmError::Malformed)
        } else {
            let (g6, b) = g5.load(rhs, None);
            let g7 = g6.lock(a, false).lock(rd, false).emit(op_code(op, rd, a, b));
            let (g8, r) = g7.load(inst, None);
            Ok(g8.mirror(r))
        }
    }
}

/// The code of a return: the result, if there is one, is brought into the
/// result register.
pub open spec fn gen_return(g: Gen, func: FuncModel, value: Option<ValueId>) -> Result<Gen, AsmError> {
    match value {
        None => Ok(g.emit(seq![Asm::Ret])),
        Some(v) => {
            let g1 = g.bind_const(func, v);
            if g1.vm.store_of(v) is None {
                Err(AsmError::Malformed)
            } else {
                Ok(g1.load(v, Some(A0)).0.emit(seq![Asm::Ret]))
            }
        },
    }
}

/// The code of one instruction of a block.
pub open spec fn gen_inst(g: Gen, func: FuncModel, inst: ValueId) -> Result<Gen, AsmError> {
    if !func.has_value(inst) {
        Err(AsmError::Malformed)
    } else {
        match func.kind(inst) {
            ValueKind::Integer(_) => Err(AsmError::Malformed),
            ValueKind::Alloc => Ok(g.slot(inst)),
            ValueKind::Load(src) => gen_load(g, inst, src),
            ValueKind::Store(value, dest) => gen_store(g, func, value, dest),
            ValueKind::Binary(op, lhs, rhs) => gen_binary(g, func, inst, op, lhs, rhs),
            ValueKind::Branch(_, _, _) => Ok(g),
            ValueKind::Jump(_) => Ok(g),
            ValueKind::Return(value) => gen_return(g, func, value),
        }
    }
}

/// The value that an instruction leaves in a register and mirrors to memory:
/// its result, or for a store the variable.
pub open spec fn produced(func: FuncModel, inst: ValueId) -> Option<ValueId> {
    match func.kind(inst) {
        ValueKind::Load(_) => Some(inst),
        ValueKind::Binary(_, _, _) => Some(inst),
        ValueKind::Store(_, dest) => Some(dest),
        _ => None,
    }
}

impl VisitorImpl {
    /// A generation in its starting state.
    pub fn new() -> (v: Self)
        ensures
            v@ == Gen::start(),
            v@.wf(),
            v.vm.wf(),
    {
        VisitorImpl { vm: ValueManager::new(), w: Vec::new() }
    }

    /// Gives an integer literal its home.
    pub fn visit_const(&mut self, func: &FunctionData, v: ValueId)
        requires
            old(self).vm.wf(),
        ensures
            final(self).vm.wf(),
            final(self)@ == old(self)@.bind_const(func@, v),
            final(self)@.vm.same_locks(old(self)@.vm),
            final(self)@.vm.cur_offset == old(self)@.vm.cur_offset,
            final(self)@.vm.max_offset == old(self)@.vm.max_offset,
            final(self)@.vm.mem == old(self)@.vm.mem || (func@.has_value(v) && func@.kind(v)
                is Integer && final(self)@.vm.mem == old(self)@.vm.mem.insert(
                v,
                Mem::Const(func@.kind(v)->Integer_0),
            )),
            keeps_slots(old(self)@.vm, final(self)@.vm, func@),
            loadable(old(self)@.vm, func@, v) ==> final(self)@.vm.mem.contains_key(v),
    {
        if v.0 < func.values.len() {
            match func.values[v.0] {
                ValueKind::Integer(i) => {
                    self.vm.set_value_store(v, ValueStore::Mem(Mem::Const(i)));
                },
                _ => {},
            }
        }
        proof {
            if is_literal(func@, v) {
                lemma_keeps(old(self)@.vm, self@.vm, func@, v, Mem::Const(func@.kind(v)->Integer_0));
            } else {
                lemma_keeps(old(self)@.vm, self@.vm, func@, v, Mem::Stack(0));
            }
        }
    }

    /// Emits the code of a binary operator on registers.
    pub fn emit_op(&mut self, op: BinaryOp, rd: Reg, a: Reg, b: Reg)
        ensures
            final(self).vm == old(self).vm,
            final(self)@ == old(self)@.emit(op_code(op, rd, a, b)),
    {
        let ghost before = self.w@;
        match op {
            BinaryOp::Eq => {
                self.w.push(Asm::Op(Opcode::Sub, rd, a, b));
                self.w.push(Asm::Seqz(rd, rd));
            },
            BinaryOp::NotEq => {
                self.w.push(Asm::Op(Opcode::Sub, rd, a, b));
                self.w.push(Asm::Snez(rd, rd));
            },
            BinaryOp::Lt => {
                self.w.push(Asm::Op(Opcode::Slt, rd, a, b));
            },
            BinaryOp::Gt => {
                self.w.push(Asm::Op(Opcode::Slt, rd, b, a));
            },
            BinaryOp::Le => {
                self.w.push(Asm::Op(Opcode::Slt, rd, b, a));
                self.w.push(Asm::Seqz(rd, rd));
            },
            BinaryOp::Ge => {
                self.w.push(Asm::Op(Opcode::Slt, rd, a, b));
                self.w.push(Asm::Seqz(rd, rd));
            },
            BinaryOp::And => {
                self.w.push(Asm::Op(Opcode::And, rd, a, b));
            },
            BinaryOp::Or => {
                self.w.push(Asm::Op(Opcode::Or, rd, a, b));
            },
            BinaryOp::Add => {
                self.w.push(Asm::Op(Opcode::Add, rd, a, b));
            },
            BinaryOp::Sub => {
                self.w.push(Asm::Op(Opcode::Sub, rd, a, b));
            },
            BinaryOp::Mul => {
                self.w.push(Asm::Op(Opcode::Mul, rd, a, b));
            },
            BinaryOp::Div => {
                self.w.push(Asm::Op(Opcode::Div, rd, a, b));
            },
            BinaryOp::Mod => {
                self.w.push(Asm::Op(Opcode::Rem, rd, a, b));
            },
        }
        proof {
            assert(self.w@ =~= before + op_code(op, rd, a, b));
        }
    }
}

impl VisitorImpl {
    /// Generates a load.
    pub fn visit_load(&mut self, inst: ValueId, src: ValueId) -> (r: Result<(), AsmError>)
        requires
            old(self).vm.wf(),
            old(self)@.wf(),
            old(self)@.vm.cur_offset + SLOT_SIZE <= u32::MAX,
        ensures
            match r {
                Ok(_) => gen_load(old(self)@, inst, src) == Ok::<_, AsmError>(final(self)@)
                    && final(self).vm.wf() && final(self)@.wf() && final(self)@.mirrored(inst)
                    && final(self)@.vm.cur_offset == old(self)@.vm.cur_offset + SLOT_SIZE
                    && final(self)@.vm.max_offset == old(self)@.vm.max_offset
                    && final(self)@.vm.mem == old(self)@.vm.mem.insert(
                    inst,
                    Mem::Stack(old(self)@.vm.cur_offset),
                ),
                Err(err) => err == AsmError::Malformed && gen_load(old(self)@, inst, src)
                    == Err::<Gen, _>(err),
            },
            has_slot(old(self)@.vm, src) ==> r is Ok,
    {
        self.vm.allocate_stack_slot(&inst, SLOT_SIZE);
        if self.vm.get_value_store(&src).is_none() {
            return Err(AsmError::Malformed);
        }
        let reg = self.vm.load_to_reg(src, None, &mut self.w);
        self.vm.set_value_store(inst, ValueStore::Reg(reg));
        self.vm.copy_to_mem(reg, &mut self.w);
        Ok(())
    }

    /// Generates a store.
    pub fn visit_store(&mut self, func: &FunctionData, value: ValueId, dest: ValueId) -> (r: Result<
        (),
        AsmError,
    >)
        requires
            old(self).vm.wf(),
            old(self)@.wf(),
        ensures
            match r {
                Ok(_) => gen_store(old(self)@, func@, value, dest) == Ok::<_, AsmError>(
                    final(self)@,
                ) && final(self).vm.wf() && final(self)@.wf() && final(self)@.mirrored(dest)
                    && final(self)@.vm.cur_offset == old(self)@.vm.cur_offset
                    && final(self)@.vm.max_offset == old(self)@.vm.max_offset && keeps_slots(
                    old(self)@.vm,
                    final(self)@.vm,
                    func@,
                ),
                Err(err) => err == AsmError::Malformed && gen_store(
                    old(self)@,
                    func@,
                    value,
                    dest,
                ) == Err::<Gen, _>(err),
            },
            ready(old(self)@.vm, func@, ValueKind::Store(value, dest)) ==> r is Ok,
    {
        let ghost v0 = self@.vm;
        self.visit_const(func, value);
        let ghost v1 = self@.vm;
        if self.vm.get_value_store(&value).is_none() {
            return Err(AsmError::Malformed);
        }
        match self.vm.get_value_mem(&dest) {
            Some(Mem::Stack(_)) => {},
            _ => {
                return Err(AsmError::Malformed);
            },
        }
        let reg = self.vm.load_to_reg(value, None, &mut self.w);
        self.vm.set_value_store(dest, ValueStore::Reg(reg));
        self.vm.copy_to_mem(reg, &mut self.w);
        proof {
            lemma_keeps(v1, self@.vm, func@, dest, Mem::Stack(0));
            lemma_keeps_twice(v0, v1, self@.vm, func@);
        }
        Ok(())
    }

    /// Generates a return.
    pub fn visit_return(&mut self, func: &FunctionData, value: Option<ValueId>) -> (r: Result<
        (),
        AsmError,
    >)
        requires
            old(self).vm.wf(),
            old(self)@.wf(),
        ensures
            match r {
                Ok(_) => gen_return(old(self)@, func@, value) == Ok::<_, AsmError>(final(self)@)
                    && final(self).vm.wf() && final(self)@.wf()
                    && final(self)@.vm.cur_offset == old(self)@.vm.cur_offset
                    && final(self)@.vm.max_offset == old(self)@.vm.max_offset && keeps_slots(
                    old(self)@.vm,
                    final(self)@.vm,
                    func@,
                ),
                Err(err) => err == AsmError::Malformed && gen_return(old(self)@, func@, value)
                    == Err::<Gen, _>(err),
            },
            ready(old(self)@.vm, func@, ValueKind::Return(value)) ==> r is Ok,
    {
        let ghost v0 = self@.vm;
        match value {
            Some(v) => {
                self.visit_const(func, v);
                let ghost v1 = self@.vm;
                if self.vm.get_value_store(&v).is_none() {
                    return Err(AsmError::Malformed);
                }
                self.vm.load_to_reg(v, Some(A0), &mut self.w);
                proof {
                    lemma_keeps(v1, self@.vm, func@, v, Mem::Stack(0));
                    lemma_keeps_twice(v0, v1, self@.vm, func@);
                }
            },
            None => {
                proof {
                    lemma_keeps(v0, v0, func@, ValueId(0), Mem::Stack(0));
                }
            },
        }
        let ghost before = self.w@;
        self.w.push(Asm::Ret);
        proof {
            assert(self.w@ =~= before + seq![Asm::Ret]);
        }
        Ok(())
    }

    /// Generates a binary operator.
    pub fn visit_binary(
        &mut self,
        func: &FunctionData,
        inst: ValueId,
        op: BinaryOp,
        lhs: ValueId,
        rhs: ValueId,
    ) -> (r: Result<(), AsmError>)
        requires
            old(self).vm.wf(),
            old(self)@.wf(),
            old(self)@.vm.cur_offset + SLOT_SIZE <= u32::MAX,
            func@.has_value(inst),
            func@.kind(inst) == ValueKind::Binary(op, lhs, rhs),
        ensures
            match r {
                Ok(_) => gen_binary(old(self)@, func@, inst, op, lhs, rhs) == Ok::<_, AsmError>(
                    final(self)@,
                ) && final(self).vm.wf() && final(self)@.wf() && final(self)@.mirrored(inst)
                    && final(self)@.vm.cur_offset == old(self)@.vm.cur_offset + SLOT_SIZE
                    && final(self)@.vm.max_offset == old(self)@.vm.max_offset && keeps_slots(
                    old(self)@.vm,
                    final(self)@.vm,
                    func@,
                ) && has_slot(final(self)@.vm, inst),
                Err(err) => err == AsmError::Malformed && gen_binary(
                    old(self)@,
                    func@,
                    inst,
                    op,
                    lhs,
                    rhs,
                ) == Err::<Gen, _>(err),
            },
            ready(old(self)@.vm, func@, ValueKind::Binary(op, lhs, rhs)) ==> r is Ok,
    {
        let ghost v0 = self@.vm;
        self.vm.allocate_stack_slot(&inst, SLOT_SIZE);
        let ghost v1 = self@.vm;
        self.visit_const(func, lhs);
        let ghost v2 = self@.vm;
        self.visit_const(func, rhs);
        let ghost v3 = self@.vm;
        proof {
            lemma_keeps(v0, v1, func@, inst, Mem::Stack(v0.cur_offset));
            lemma_keeps_twice(v0, v1, v2, func@);
            lemma_keeps_twice(v0, v2, v3, func@);
            lemma_kept(v1, v2, func@, inst);
        }
        let rd = self.vm.alloc_reg(None, &mut self.w);
        self.vm.set_value_store(inst, ValueStore::Reg(rd));
        self.vm.lock_reg(rd);
        if self.vm.get_value_store(&lhs).is_none() {
            return Err(AsmError::Malformed);
        }
        let a = self.vm.load_to_reg(lhs, None, &mut self.w);
        self.vm.lock_reg(a);
        if self.vm.get_value_store(&rhs).is_none() {
            return Err(AsmError::Malformed);
        }
        let b = self.vm.load_to_reg(rhs, None, &mut self.w);
        self.vm.unlock_reg(a);
        self.vm.unlock_reg(rd);
        self.emit_op(op, rd, a, b);
        let reg = self.vm.load_to_reg(inst, None, &mut self.w);
        self.vm.copy_to_mem(reg, &mut self.w);
        proof {
            lemma_keeps(v3, self@.vm, func@, inst, Mem::Stack(0));
            lemma_keeps_twice(v0, v3, self@.vm, func@);
        }
        Ok(())
    }
}

/// The code of the instructions of a block from position `from` on.
pub open spec fn gen_insts(g: Gen, func: FuncModel, insts: Seq<ValueId>, from: int) -> Result<
    Gen,
    AsmError,
>
    decreases insts.len() - from,
{
    if from < 0 || from >= insts.len() {
        Ok(g)
    } else {
        match gen_inst(g, func, insts[from]) {
            Err(err) => Err(err),
            Ok(g1) => gen_insts(g1, func, insts, from + 1),
        }
    }
}

/// The state at the entry of a block with a frame of `size` bytes: the stack
/// pointer is lowered and slots are counted from the start of the frame.
pub open spec fn enter_frame(g: Gen, size: u32) -> Gen {
    Gen { vm: g.vm.frame(size), code: g.code.push(Asm::Frame(size)) }
}

/// The code of a block: the frame, sized for the instructions that take a
/// slot, then the instructions in order.
pub open spec fn gen_block(g: Gen, func: FuncModel, bb: BlockId) -> Result<Gen, AsmError> {
    if !func.has_block(bb) {
        Err(AsmError::Malformed)
    } else {
        let insts = func.bbs[bb.0 as int].insts;
        let size = frame_bytes(slot_count(func, insts));
        if size > MAX_FRAME {
            Err(AsmError::FrameOverflow)
        } else {
            gen_insts(enter_frame(g, size as u32), func, insts, 0)
        }
    }
}

/// The code of the blocks of the layout from position `from` on.
pub open spec fn gen_blocks(g: Gen, func: FuncModel, from: int) -> Result<Gen, AsmError>
    decreases func.layout.len() - from,
{
    if from < 0 || from >= func.layout.len() {
        Ok(g)
    } else {
        match gen_block(g, func, func.layout[from]) {
            Err(err) => Err(err),
            Ok(g1) => gen_blocks(g1, func, from + 1),
        }
    }
}

/// The code of a function: its label, then its blocks in layout order. The
/// locations of values are those of this function only: the manager starts
/// anew.
pub open spec fn gen_func(g: Gen, func: FunctionData) -> Result<Gen, AsmError> {
    gen_blocks(Gen { vm: VmModel::init(), code: g.code.push(Asm::Label(func.name)) }, func@, 0)
}

/// The code of the functions from position `from` on.
pub open spec fn gen_funcs(g: Gen, funcs: Seq<FunctionData>, from: int) -> Result<Gen, AsmError>
    decreases funcs.len() - from,
{
    if from < 0 || from >= funcs.len() {
        Ok(g)
    } else {
        match gen_func(g, funcs[from]) {
            Err(err) => Err(err),
            Ok(g1) => gen_funcs(g1, funcs, from + 1),
        }
    }
}

/// The directives at the head of a listing: the text section, and the export
/// of the entry function, the first of the program.
pub open spec fn gen_head(prog: Module) -> Gen {
    let g = Gen::start().emit(seq![Asm::Text]);
    if prog.funcs@.len() > 0 {
        g.emit(seq![Asm::Global(prog.funcs@[0].name)])
    } else {
        g
    }
}

/// The listing of a program.
pub open spec fn gen_program(prog: Module) -> Result<Seq<Asm>, AsmError> {
    match gen_funcs(gen_head(prog), prog.funcs@, 0) {
        Err(err) => Err(err),
        Ok(g) => Ok(g.code),
    }
}

/// Bytes of the slots that an instruction takes.
pub open spec fn slot_bytes(func: FuncModel, inst: ValueId) -> nat {
    if takes_slot(func, inst) {
        SLOT_SIZE as nat
    } else {
        0
    }
}

impl VisitorImpl {
    /// Generates one instruction of a block. Where the instruction produces a
    /// value, the value is in a register afterwards and the last line of the
    /// code stores that register to the value's stack slot.
    pub fn visit_local_inst(&mut self, func: &FunctionData, inst: ValueId) -> (r: Result<
        (),
        AsmError,
    >)
        requires
            old(self).vm.wf(),
            old(self)@.wf(),
            old(self)@.vm.cur_offset + SLOT_SIZE <= u32::MAX,
        ensures
            match r {
                Ok(_) => {
                    &&& gen_inst(old(self)@, func@, inst) == Ok::<_, AsmError>(final(self)@)
                    &&& final(self).vm.wf()
                    &&& final(self)@.wf()
                    &&& produced(func@, inst) matches Some(v) ==> final(self)@.mirrored(v)
                    &&& final(self)@.vm.cur_offset == old(self)@.vm.cur_offset + slot_bytes(
                        func@,
                        inst,
                    )
                    &&& final(self)@.vm.max_offset == old(self)@.vm.max_offset
                    &&& keeps_slots(old(self)@.vm, final(self)@.vm, func@)
                    &&& takes_slot(func@, inst) ==> has_slot(final(self)@.vm, inst)
                },
                Err(err) => err == AsmError::Malformed && gen_inst(old(self)@, func@, inst)
                    == Err::<Gen, _>(err),
            },
            func@.has_value(inst) && func@.kind(inst).is_inst() && ready(
                old(self)@.vm,
                func@,
                func@.kind(inst),
            ) ==> r is Ok,
    {
        if inst.0 >= func.values.len() {
            return Err(AsmError::Malformed);
        }
        let ghost g0 = self@;
        proof {
            lemma_keeps(g0.vm, g0.vm, func@, inst, Mem::Stack(0));
        }
        match func.values[inst.0] {
            ValueKind::Integer(_) => Err(AsmError::Malformed),
            ValueKind::Alloc => {
                self.vm.allocate_stack_slot(&inst, SLOT_SIZE);
                proof {
                    lemma_keeps(g0.vm, self@.vm, func@, inst, Mem::Stack(g0.vm.cur_offset));
                }
                Ok(())
            },
            ValueKind::Load(src) => {
                let r = self.visit_load(inst, src);
                proof {
                    if r is Ok {
                        lemma_keeps(g0.vm, self@.vm, func@, inst, Mem::Stack(g0.vm.cur_offset));
                    }
                }
                r
            },
            ValueKind::Store(value, dest) => self.visit_store(func, value, dest),
            ValueKind::Binary(op, lhs, rhs) => self.visit_binary(func, inst, op, lhs, rhs),
            ValueKind::Branch(_, _, _) => Ok(()),
            ValueKind::Jump(_) => Ok(()),
            ValueKind::Return(value) => self.visit_return(func, value),
        }
    }
}

/// The value stands in the layout before a position: in a block before the
/// block at position `i`, or in that block before index `j`.
pub open spec fn walked(func: FuncModel, o: ValueId, i: int, j: int) -> bool {
    ||| exists|k: int| 0 <= k < i && #[trigger] func.stands(o, k)
    ||| {
        &&& 0 <= i < func.layout.len()
        &&& func.has_block(func.layout[i])
        &&& exists|n: int|
            0 <= n < j && n < func.bbs[func.layout[i].0 as int].insts.len()
                && #[trigger] func.bbs[func.layout[i].0 as int].insts[n] == o
    }
}

/// Every instruction that stands in the layout before a position and takes a
/// stack slot has one.
#[verifier::opaque]
pub open spec fn homes(vm: VmModel, func: FuncModel, i: int, j: int) -> bool {
    forall|o: ValueId| #[trigger] walked(func, o, i, j) && takes_slot(func, o) ==> has_slot(vm, o)
}

/// Nothing stands before the start of the layout.
pub proof fn lemma_homes_start(vm: VmModel, func: FuncModel)
    ensures
        homes(vm, func, 0, 0),
{
    reveal(homes);
}

/// What holds up to the end of a block holds up to the start of the next.
pub proof fn lemma_homes_next(vm: VmModel, func: FuncModel, i: int)
    requires
        0 <= i < func.layout.len(),
        func.has_block(func.layout[i]),
        homes(vm, func, i, func.bbs[func.layout[i].0 as int].insts.len() as int),
    ensures
        homes(vm, func, i + 1, 0),
{
    reveal(homes);
    let insts = func.bbs[func.layout[i].0 as int].insts;
    assert forall|o: ValueId| #[trigger] walked(func, o, i + 1, 0) && takes_slot(func, o) implies has_slot(
        vm,
        o,
    ) by {
        let k = choose|k: int| 0 <= k < i + 1 && #[trigger] func.stands(o, k);
        assert(k == i ==> insts.contains(o));
        assert(walked(func, o, i, insts.len() as int));
    }
}

/// What holds before an instruction holds after it, if the slots are kept and
/// the instruction has its slot.
pub proof fn lemma_homes_step(old: VmModel, new: VmModel, func: FuncModel, i: int, j: int)
    requires
        0 <= i < func.layout.len(),
        func.has_block(func.layout[i]),
        0 <= j < func.bbs[func.layout[i].0 as int].insts.len(),
        homes(old, func, i, j),
        keeps_slots(old, new, func),
        takes_slot(func, func.bbs[func.layout[i].0 as int].insts[j]) ==> has_slot(
            new,
            func.bbs[func.layout[i].0 as int].insts[j],
        ),
    ensures
        homes(new, func, i, j + 1),
{
    reveal(homes);
    let insts = func.bbs[func.layout[i].0 as int].insts;
    assert forall|o: ValueId| #[trigger] walked(func, o, i, j + 1) && takes_slot(func, o) implies has_slot(
        new,
        o,
    ) by {
        if o != insts[j] {
            assert(walked(func, o, i, j));
            lemma_kept(old, new, func, o);
        }
    }
}

/// The homes stay where a frame starts.
pub proof fn lemma_homes_frame(vm: VmModel, func: FuncModel, i: int, size: u32)
    requires
        homes(vm, func, i, 0),
    ensures
        homes(vm.frame(size), func, i, 0),
{
    reveal(homes);
}

/// In a well-formed and ordered function the operands of an instruction have
/// the locations that its code needs, once every instruction before it has
/// its slot.
pub proof fn lemma_ready(vm: VmModel, func: FuncModel, i: int, j: int)
    requires
        func.wf(),
        func.ordered(),
        0 <= i < func.layout.len(),
        0 <= j < func.bbs[func.layout[i].0 as int].insts.len(),
        homes(vm, func, i, j),
    ensures
        func.has_value(func.bbs[func.layout[i].0 as int].insts[j]),
        func.kind(func.bbs[func.layout[i].0 as int].insts[j]).is_inst(),
        ready(vm, func, func.kind(func.bbs[func.layout[i].0 as int].insts[j])),
{
    reveal(FuncModel::ordered);
    let b = func.layout[i].0 as int;
    let insts = func.bbs[b].insts;
    let v = insts[j];
    assert(func.block_ok(b));
    assert(func.stands(v, i));
    assert(func.value_ok(v.0 as int));
    match func.kind(v) {
        ValueKind::Load(src) => {
            lemma_operand(vm, func, i, j, src);
        },
        ValueKind::Store(value, dest) => {
            lemma_operand(vm, func, i, j, value);
            lemma_operand(vm, func, i, j, dest);
        },
        ValueKind::Binary(_, lhs, rhs) => {
            lemma_operand(vm, func, i, j, lhs);
            lemma_operand(vm, func, i, j, rhs);
        },
        ValueKind::Return(Some(value)) => {
            lemma_operand(vm, func, i, j, value);
        },
        _ => {},
    }
}

/// An operand that was created before its instruction and stands in the
/// instruction's block or in one laid out before, or is a literal, can be
/// brought into a register; one that takes a slot has it.
pub proof fn lemma_operand(vm: VmModel, func: FuncModel, i: int, j: int, o: ValueId)
    requires
        func.wf(),
        0 <= i < func.layout.len(),
        0 <= j < func.bbs[func.layout[i].0 as int].insts.len(),
        homes(vm, func, i, j),
        func.reaches(o, i),
        o.0 < func.bbs[func.layout[i].0 as int].insts[j].0,
        func.is_int(o) || func.is_slot(o),
    ensures
        loadable(vm, func, o),
        func.is_slot(o) ==> has_slot(vm, o),
{
    reveal(homes);
    reveal(FuncModel::reaches);
    let b = func.layout[i].0 as int;
    let insts = func.bbs[b].insts;
    if !(func.kind(o) is Integer) {
        let k = choose|k: int| 0 <= k <= i && #[trigger] func.stands(o, k);
        if k == i {
            assert(func.block_ok(b));
            assert(insts.contains(o));
        }
        assert(walked(func, o, i, j));
    }
}

/// The slots of a part of a block are not more than those of the block.
pub proof fn lemma_slot_count_bound(func: FuncModel, insts: Seq<ValueId>, i: int)
    requires
        0 <= i <= insts.len(),
    ensures
        slot_count(func, insts.take(i)) <= slot_count(func, insts),
    decreases insts.len() - i,
{
    if i < insts.len() {
        lemma_slot_count_take(func, insts, i);
        lemma_slot_count_bound(func, insts, i + 1);
    } else {
        assert(insts.take(i) =~= insts);
    }
}

impl VisitorImpl {
    /// Generates a block: the frame, then the instructions in order. The frame
    /// is too large exactly if the block has more than 512 slots; every slot
    /// that is handed out lies inside the frame.
    pub fn visit_bb(&mut self, func: &FunctionData, bb: BlockId) -> (r: Result<(), AsmError>)
        requires
            old(self).vm.wf(),
            old(self)@.wf(),
        ensures
            match r {
                Ok(_) => {
                    &&& gen_block(old(self)@, func@, bb) == Ok::<_, AsmError>(final(self)@)
                    &&& final(self).vm.wf()
                    &&& final(self)@.wf()
                    &&& final(self)@.vm.cur_offset <= final(self)@.vm.max_offset
                },
                Err(err) => gen_block(old(self)@, func@, bb) == Err::<Gen, _>(err),
            },
            func@.has_block(bb) ==> (r == Err::<(), _>(AsmError::FrameOverflow) <==> frame_bytes(
                slot_count(func@, func@.bbs[bb.0 as int].insts),
            ) > MAX_FRAME),
            func@.wf() && func@.ordered() && func@.layout.contains(bb) && homes(
                old(self)@.vm,
                func@,
                func@.pos_of(bb),
                0,
            ) ==> r != Err::<(), _>(AsmError::Malformed) && (r is Ok ==> homes(
                final(self)@.vm,
                func@,
                func@.pos_of(bb) + 1,
                0,
            )),
    {
        let ghost p = func@.pos_of(bb);
        let ghost sound = func@.wf() && func@.ordered() && func@.layout.contains(bb) && homes(
            self@.vm,
            func@,
            p,
            0,
        );
        if bb.0 >= func.bbs.len() {
            return Err(AsmError::Malformed);
        }
        let size = match frame_size(func, bb) {
            Err(err) => {
                return Err(err);
            },
            Ok(size) => size,
        };
        self.w.push(Asm::Frame(size));
        proof {
            if sound {
                lemma_homes_frame(self@.vm, func@, p, size);
            }
        }
        self.vm.set_max_offset(size);
        let insts = &func.bbs[bb.0].insts;
        let ghost g0 = self@;
        let mut i: usize = 0;
        while i < insts.len()
            invariant
                i <= insts.len(),
                func@.has_block(bb),
                p == func@.pos_of(bb),
                sound <==> func@.wf() && func@.ordered() && func@.layout.contains(bb) && homes(
                    old(self)@.vm,
                    func@,
                    p,
                    0,
                ),
                sound ==> 0 <= p < func@.layout.len() && func@.layout[p] == bb && homes(
                    self@.vm,
                    func@,
                    p,
                    i as int,
                ),
                insts@ == func@.bbs[bb.0 as int].insts,
                gen_block(old(self)@, func@, bb) == gen_insts(g0, func@, insts@, 0),
                self.vm.wf(),
                self@.wf(),
                gen_insts(g0, func@, insts@, 0) == gen_insts(self@, func@, insts@, i as int),
                self@.vm.cur_offset == SLOT_SIZE * slot_count(func@, insts@.take(i as int)),
                self@.vm.max_offset == size,
                size == frame_bytes(slot_count(func@, insts@)),
                size <= MAX_FRAME,
            decreases insts.len() - i,
        {
            let ghost v0 = self@.vm;
            proof {
                lemma_slot_count_take(func@, insts@, i as int);
                lemma_slot_count_bound(func@, insts@, i + 1);
                if sound {
                    lemma_ready(v0, func@, p, i as int);
                }
            }
            match self.visit_local_inst(func, insts[i]) {
                Err(err) => {
                    return Err(err);
                },
                Ok(_) => {},
            }
            proof {
                if sound {
                    lemma_homes_step(v0, self@.vm, func@, p, i as int);
                }
            }
            i += 1;
        }
        proof {
            assert(insts@.take(insts.len() as int) =~= insts@);
            if sound {
                lemma_homes_next(self@.vm, func@, p);
            }
        }
        Ok(())
    }

    /// Generates a function: its label, then its blocks in layout order. A
    /// well-formed function whose operands stand before their uses is never
    /// found malformed.
    pub fn visit_func(&mut self, func: &FunctionData) -> (r: Result<(), AsmError>)
        ensures
            match r {
                Ok(_) => gen_func(old(self)@, *func) == Ok::<_, AsmError>(final(self)@)
                    && final(self).vm.wf() && final(self)@.wf(),
                Err(err) => gen_func(old(self)@, *func) == Err::<Gen, _>(err),
            },
            func@.wf() && func@.ordered() ==> r != Err::<(), _>(AsmError::Malformed),
    {
        self.vm = ValueManager::new();
        self.w.push(Asm::Label(func.name.clone()));
        let ghost g0 = self@;
        proof {
            lemma_homes_start(self@.vm, func@);
        }
        let mut i: usize = 0;
        while i < func.layout.len()
            invariant
                i <= func.layout.len(),
                func@.wf() && func@.ordered() ==> homes(self@.vm, func@, i as int, 0),
                gen_func(old(self)@, *func) == gen_blocks(g0, func@, 0),
                self.vm.wf(),
                self@.wf(),
                gen_blocks(g0, func@, 0) == gen_blocks(self@, func@, i as int),
            decreases func.layout.len() - i,
        {
            match self.visit_bb(func, func.layout[i]) {
                Err(err) => {
                    return Err(err);
                },
                Ok(_) => {},
            }
            i += 1;
        }
        Ok(())
    }

    /// Generates the listing of a program. A program whose functions are
    /// well-formed, with operands that stand before their uses, is never
    /// found malformed.
    pub fn visit(program: &Module) -> (r: Result<Vec<Asm>, AsmError>)
        ensures
            match r {
                Ok(lines) => gen_program(*program) == Ok::<_, AsmError>(lines@),
                Err(err) => gen_program(*program) == Err::<Seq<Asm>, _>(err),
            },
            program.wf() ==> r != Err::<Vec<Asm>, _>(AsmError::Malformed),
    {
        let mut v = VisitorImpl::new();
        v.w.push(Asm::Text);
        if program.funcs.len() > 0 {
            v.w.push(Asm::Global(program.funcs[0].name.clone()));
        }
        proof {
            assert(v@.code =~= gen_head(*program).code);
        }
        let ghost g0 = v@;
        let mut i: usize = 0;
        while i < program.funcs.len()
            invariant
                i <= program.funcs.len(),
                g0 == gen_head(*program),
                v.vm.wf(),
                v@.wf(),
                gen_funcs(g0, program.funcs@, 0) == gen_funcs(v@, program.funcs@, i as int),
            decreases program.funcs.len() - i,
        {
            match v.visit_func(&program.funcs[i]) {
                Err(err) => {
                    return Err(err);
                },
                Ok(_) => {},
            }
            i += 1;
        }
        Ok(v.w)
    }
}

/// Generator of assembly for a program of the intermediate representation.
#[derive(Default)]
pub struct Visitor;

impl Visitor {
    /// Generates the listing of a program as text: the directives, then each
    /// function's label and the code of its blocks, one line each. A program
    /// whose functions are well-formed, with operands that stand before their
    /// uses, is never found malformed.
    pub fn visit(&mut self, program: &Module) -> (r: Result<String, AsmError>)
        ensures
            match r {
                Ok(text) => gen_program(*program) matches Ok(lines) && text@ == listing_text(
                    lines,
                ),
                Err(err) => gen_program(*program) == Err::<Seq<Asm>, _>(err),
            },
            program.wf() ==> r != Err::<String, _>(AsmError::Malformed),
    {
        match VisitorImpl::visit(program) {
            Err(err) => Err(err),
            Ok(lines) => Ok(render_listing(&lines)),
        }
    }
}

} // verus!
