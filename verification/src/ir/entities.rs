//! Values, basic blocks, functions and programs of the intermediate representation.
//!
//! A function owns an arena of values and an arena of basic blocks. A handle is
//! the position of its entity in the arena. The layout lists the blocks that
//! take part in the function, in the order in which they are emitted.

use vstd::prelude::*;

verus! {

/// Handle of a value: its position in the function's value arena.
#[derive(Clone, Copy, Debug, PartialEq, Eq, Structural)]
pub struct ValueId(pub usize);

/// Handle of a basic block: its position in the function's block arena.
#[derive(Clone, Copy, Debug, PartialEq, Eq, Structural)]
pub struct BlockId(pub usize);

/// Binary operators of the representation.
#[derive(Clone, Copy, Debug, PartialEq, Eq, Structural)]
pub enum BinaryOp {
    NotEq,
    Eq,
    Gt,
    Lt,
    Ge,
    Le,
    Add,
    Sub,
    Mul,
    Div,
    Mod,
    And,
    Or,
}

/// Type of the result of a value.
#[derive(Clone, Copy, Debug, PartialEq, Eq, Structural)]
pub enum TypeKind {
    /// 32-bit integer.
    Int32,
    /// No result.
    Unit,
    /// Pointer to a 32-bit integer slot.
    Pointer,
}

/// What a value is: a literal or an instruction with its operands.
#[derive(Clone, Copy, Debug)]
pub enum ValueKind {
    /// Integer literal.
    Integer(i32),
    /// Reserves a slot; the result points to it.
    Alloc,
    /// Reads the slot that the operand points to.
    Load(ValueId),
    /// Writes the first operand to the slot that the second points to.
    Store(ValueId, ValueId),
    /// Applies the operator to the two operands.
    Binary(BinaryOp, ValueId, ValueId),
    /// Goes to the first block if the operand is not zero, else to the second.
    Branch(ValueId, BlockId, BlockId),
    /// Goes to the block.
    Jump(BlockId),
    /// Leaves the function, with a result or without.
    Return(Option<ValueId>),
}

impl ValueKind {
    /// Type of the value's result.
    pub open spec fn ty(self) -> TypeKind {
        match self {
            ValueKind::Integer(_) => TypeKind::Int32,
            ValueKind::Alloc => TypeKind::Pointer,
            ValueKind::Load(_) => TypeKind::Int32,
            ValueKind::Binary(_, _, _) => TypeKind::Int32,
            _ => TypeKind::Unit,
        }
    }

    /// Whether the value ends a basic block.
    pub open spec fn is_terminator(self) -> bool {
        self is Branch || self is Jump || self is Return
    }

    /// Whether the value is an instruction, to be placed in a block.
    pub open spec fn is_inst(self) -> bool {
        !(self is Integer)
    }

    /// Whether the value's result takes a stack slot: an integer or a pointer,
    /// produced by an instruction.
    pub open spec fn needs_slot(self) -> bool {
        self is Alloc || self is Load || self is Binary
    }

    /// Type of the value's result.
    pub fn type_kind(&self) -> (t: TypeKind)
        ensures
            t == self.ty(),
    {
        match self {
            ValueKind::Integer(_) => TypeKind::Int32,
            ValueKind::Alloc => TypeKind::Pointer,
            ValueKind::Load(_) => TypeKind::Int32,
            ValueKind::Binary(_, _, _) => TypeKind::Int32,
            _ => TypeKind::Unit,
        }
    }

    /// Whether the value ends a basic block.
    pub fn ends_block(&self) -> (b: bool)
        ensures
            b == self.is_terminator(),
    {
        match self {
            ValueKind::Branch(_, _, _) => true,
            ValueKind::Jump(_) => true,
            ValueKind::Return(_) => true,
            _ => false,
        }
    }
}

/// A basic block: its label and its instructions in order.
#[derive(Debug)]
pub struct BasicBlockData {
    pub name: String,
    pub insts: Vec<ValueId>,
}

/// Mathematical content of a basic block.
pub ghost struct BlockModel {
    pub name: Seq<char>,
    pub insts: Seq<ValueId>,
}

impl View for BasicBlockData {
    type V = BlockModel;

    open spec fn view(&self) -> BlockModel {
        BlockModel { name: self.name@, insts: self.insts@ }
    }
}

/// A function: its name, its two arenas and its layout.
#[derive(Debug)]
pub struct FunctionData {
    /// The bare identifier, without sigil.
    pub name: String,
    pub values: Vec<ValueKind>,
    pub bbs: Vec<BasicBlockData>,
    pub layout: Vec<BlockId>,
}

/// Mathematical content of a function.
pub ghost struct FuncModel {
    pub name: Seq<char>,
    pub values: Seq<ValueKind>,
    pub bbs: Seq<BlockModel>,
    pub layout: Seq<BlockId>,
}

impl View for FunctionData {
    type V = FuncModel;

    open spec fn view(&self) -> FuncModel {
        FuncModel {
            name: self.name@,
            values: self.values@,
            bbs: Seq::new(self.bbs@.len(), |i: int| self.bbs@[i]@),
            layout: self.layout@,
        }
    }
}

impl FuncModel {
    /// A function of that name with nothing in it.
    pub open spec fn empty(name: Seq<char>) -> FuncModel {
        FuncModel { name, values: Seq::empty(), bbs: Seq::empty(), layout: Seq::empty() }
    }

    /// Handle that the next value will get.
    pub open spec fn next_value(self) -> ValueId {
        ValueId(self.values.len() as usize)
    }

    /// Handle that the next block will get.
    pub open spec fn next_block(self) -> BlockId {
        BlockId(self.bbs.len() as usize)
    }

    /// The function with one more value at the end of the arena.
    pub open spec fn with_value(self, kind: ValueKind) -> FuncModel {
        FuncModel { values: self.values.push(kind), ..self }
    }

    /// The function with one more, empty, block at the end of the arena.
    pub open spec fn with_block(self, name: Seq<char>) -> FuncModel {
        FuncModel { bbs: self.bbs.push(BlockModel { name, insts: Seq::empty() }), ..self }
    }

    /// The function with the block added at the end of the layout.
    pub open spec fn with_layout(self, bb: BlockId) -> FuncModel {
        FuncModel { layout: self.layout.push(bb), ..self }
    }

    /// The function with the instruction added at the end of the block.
    pub open spec fn with_inst(self, bb: BlockId, v: ValueId) -> FuncModel {
        FuncModel {
            bbs: self.bbs.update(
                bb.0 as int,
                BlockModel { insts: self.bbs[bb.0 as int].insts.push(v), ..self.bbs[bb.0 as int] },
            ),
            ..self
        }
    }

    pub open spec fn has_value(self, v: ValueId) -> bool {
        v.0 < self.values.len()
    }

    pub open spec fn has_block(self, bb: BlockId) -> bool {
        bb.0 < self.bbs.len()
    }

    pub open spec fn kind(self, v: ValueId) -> ValueKind {
        self.values[v.0 as int]
    }

    /// The value exists and its result is a 32-bit integer.
    pub open spec fn is_int(self, v: ValueId) -> bool {
        self.has_value(v) && self.kind(v).ty() == TypeKind::Int32
    }

    /// The value exists and is a slot reservation.
    pub open spec fn is_slot(self, v: ValueId) -> bool {
        self.has_value(v) && self.kind(v) is Alloc
    }

    /// The last instruction of the block, if it has one.
    pub open spec fn last_inst(self, bb: BlockId) -> Option<ValueId> {
        let insts = self.bbs[bb.0 as int].insts;
        if insts.len() == 0 {
            None
        } else {
            Some(insts[insts.len() - 1])
        }
    }

    /// Whether the block ends in a terminator.
    pub open spec fn terminated(self, bb: BlockId) -> bool {
        match self.last_inst(bb) {
            Some(v) => self.has_value(v) && self.kind(v).is_terminator(),
            None => false,
        }
    }

    /// Whether a value of this kind can be added: its operands exist and have
    /// the types that the instruction takes.
    pub open spec fn accepts(self, kind: ValueKind) -> bool {
        match kind {
            ValueKind::Integer(_) => true,
            ValueKind::Alloc => true,
            ValueKind::Load(src) => self.is_slot(src),
            ValueKind::Store(value, dest) => self.is_int(value) && self.is_slot(dest),
            ValueKind::Binary(_, lhs, rhs) => self.is_int(lhs) && self.is_int(rhs),
            ValueKind::Branch(cond, t, f) => self.is_int(cond) && self.has_block(t)
                && self.has_block(f),
            ValueKind::Jump(target) => self.has_block(target),
            ValueKind::Return(None) => true,
            ValueKind::Return(Some(value)) => self.is_int(value),
        }
    }

    /// The operands of the value at position `i` exist, were created before
    /// it, and have the types that the instruction takes.
    pub open spec fn value_ok(self, i: int) -> bool {
        match self.values[i] {
            ValueKind::Integer(_) => true,
            ValueKind::Alloc => true,
            ValueKind::Load(src) => src.0 < i && self.is_slot(src),
            ValueKind::Store(value, dest) => {
                &&& value.0 < i
                &&& self.is_int(value)
                &&& dest.0 < i
                &&& self.is_slot(dest)
            },
            ValueKind::Binary(_, lhs, rhs) => {
                &&& lhs.0 < i
                &&& self.is_int(lhs)
                &&& rhs.0 < i
                &&& self.is_int(rhs)
            },
            ValueKind::Branch(cond, t, f) => {
                &&& cond.0 < i
                &&& self.is_int(cond)
                &&& self.has_block(t)
                &&& self.has_block(f)
            },
            ValueKind::Jump(target) => self.has_block(target),
            ValueKind::Return(None) => true,
            ValueKind::Return(Some(value)) => value.0 < i && self.is_int(value),
        }
    }

    /// The block holds existing instructions, in the order of their creation,
    /// and none after a terminator.
    pub open spec fn block_ok(self, b: int) -> bool {
        let insts = self.bbs[b].insts;
        &&& forall|j: int|
            0 <= j < insts.len() ==> self.has_value(#[trigger] insts[j]) && self.kind(
                insts[j],
            ).is_inst()
        &&& forall|j: int, k: int| 0 <= j < k < insts.len() ==> insts[j].0 < insts[k].0
        &&& forall|j: int|
            0 <= j < insts.len() - 1 ==> !self.kind(#[trigger] insts[j]).is_terminator()
    }

    /// The layout names existing blocks, each at most once.
    pub open spec fn layout_ok(self) -> bool {
        &&& forall|i: int| 0 <= i < self.layout.len() ==> self.has_block(#[trigger] self.layout[i])
        &&& forall|i: int, j: int|
            0 <= i < j < self.layout.len() ==> self.layout[i] != self.layout[j]
    }

    /// Well-formedness of a function.
    pub open spec fn wf(self) -> bool {
        &&& forall|i: int| 0 <= i < self.values.len() ==> #[trigger] self.value_ok(i)
        &&& forall|b: int| 0 <= b < self.bbs.len() ==> #[trigger] self.block_ok(b)
        &&& self.layout_ok()
    }

    /// `self` is a later state of `old`: the arenas, the blocks and the layout
    /// have only grown at their ends.
    pub open spec fn grows(self, old: FuncModel) -> bool {
        &&& self.name == old.name
        &&& old.values.len() <= self.values.len()
        &&& forall|i: int| 0 <= i < old.values.len() ==> self.values[i] == old.values[i]
        &&& old.bbs.len() <= self.bbs.len()
        &&& forall|b: int|
            0 <= b < old.bbs.len() ==> (#[trigger] self.bbs[b]).name == old.bbs[b].name
                && old.bbs[b].insts.is_prefix_of(self.bbs[b].insts)
        &&& old.layout.len() <= self.layout.len()
        &&& forall|i: int| 0 <= i < old.layout.len() ==> self.layout[i] == old.layout[i]
    }

    /// `self` is a later state of `old`, and what was laid out since is new.
    pub open spec fn extends(self, old: FuncModel) -> bool {
        &&& self.grows(old)
        &&& forall|i: int|
            old.layout.len() <= i < self.layout.len() ==> (#[trigger] self.layout[i]).0
                >= old.bbs.len()
    }

    /// The position of a block in the layout.
    pub open spec fn pos_of(self, bb: BlockId) -> int {
        choose|i: int| 0 <= i < self.layout.len() && self.layout[i] == bb
    }

    /// Every block that holds an instruction is laid out.
    #[verifier::opaque]
    pub open spec fn tidy(self) -> bool {
        forall|bb: BlockId|
            self.has_block(bb) && !self.layout.contains(bb) ==> (
            #[trigger] self.bbs[bb.0 as int]).insts.len() == 0
    }

    /// The value stands in the block at a position of the layout.
    pub open spec fn stands(self, o: ValueId, i: int) -> bool {
        &&& 0 <= i < self.layout.len()
        &&& self.has_block(self.layout[i])
        &&& self.bbs[self.layout[i].0 as int].insts.contains(o)
    }

    /// The value can be an operand in the block at position `i` of the layout:
    /// it is a literal, or it stands in that block or in one laid out before.
    #[verifier::opaque]
    pub open spec fn reaches(self, o: ValueId, i: int) -> bool {
        self.has_value(o) && (self.kind(o) is Integer || exists|k: int|
            0 <= k <= i && #[trigger] self.stands(o, k))
    }

    /// The operands of an instruction of that kind can be operands in the
    /// block at position `i` of the layout.
    pub open spec fn kind_reaches(self, kind: ValueKind, i: int) -> bool {
        match kind {
            ValueKind::Load(src) => self.reaches(src, i),
            ValueKind::Store(value, dest) => self.reaches(value, i) && self.reaches(dest, i),
            ValueKind::Binary(_, lhs, rhs) => self.reaches(lhs, i) && self.reaches(rhs, i),
            ValueKind::Branch(cond, _, _) => self.reaches(cond, i),
            ValueKind::Return(Some(value)) => self.reaches(value, i),
            _ => true,
        }
    }

    /// Every instruction of the layout has operands that are literals or
    /// stand in its own block or in a block laid out before.
    #[verifier::opaque]
    pub open spec fn ordered(self) -> bool {
        forall|i: int, v: ValueId| #[trigger]
            self.stands(v, i) ==> self.has_value(v) && self.kind_reaches(self.kind(v), i)
    }
}

impl FuncModel {
    /// Adding a value whose operands are in order keeps a function well-formed.
    pub proof fn lemma_with_value(self, kind: ValueKind)
        requires
            self.wf(),
            self.accepts(kind),
        ensures
            self.with_value(kind).wf(),
            self.with_value(kind).extends(self),
    {
        let next = self.with_value(kind);
        assert forall|i: int| 0 <= i < next.values.len() implies #[trigger] next.value_ok(i) by {
            if i < self.values.len() {
                assert(self.value_ok(i));
            }
        }
        assert forall|b: int| 0 <= b < next.bbs.len() implies #[trigger] next.block_ok(b) by {
            assert(self.block_ok(b));
        }
    }

    /// Adding an empty block keeps a function well-formed.
    pub proof fn lemma_with_block(self, name: Seq<char>)
        requires
            self.wf(),
        ensures
            self.with_block(name).wf(),
    {
        let next = self.with_block(name);
        assert forall|i: int| 0 <= i < next.values.len() implies #[trigger] next.value_ok(i) by {
            assert(self.value_ok(i));
        }
        assert forall|b: int| 0 <= b < next.bbs.len() implies #[trigger] next.block_ok(b) by {
            if b < self.bbs.len() {
                assert(self.block_ok(b));
            }
        }
    }

    /// Laying out a block that exists and is not laid out yet keeps a function
    /// well-formed.
    pub proof fn lemma_with_layout(self, bb: BlockId)
        requires
            self.wf(),
            self.has_block(bb),
            !self.layout.contains(bb),
        ensures
            self.with_layout(bb).wf(),
    {
        let next = self.with_layout(bb);
        assert forall|i: int| 0 <= i < next.values.len() implies #[trigger] next.value_ok(i) by {
            assert(self.value_ok(i));
        }
        assert forall|b: int| 0 <= b < next.bbs.len() implies #[trigger] next.block_ok(b) by {
            assert(self.block_ok(b));
        }
    }

    /// Adding the newest value, an instruction, to a block that does not end
    /// in a terminator keeps a function well-formed.
    pub proof fn lemma_with_inst(self, bb: BlockId, v: ValueId)
        requires
            self.wf(),
            self.has_block(bb),
            !self.terminated(bb),
            v.0 + 1 == self.values.len(),
            self.kind(v).is_inst(),
            forall|b: int, j: int|
                0 <= b < self.bbs.len() && 0 <= j < self.bbs[b].insts.len() ==> (
                #[trigger] self.bbs[b].insts[j]).0 < v.0,
        ensures
            self.with_inst(bb, v).wf(),
    {
        let next = self.with_inst(bb, v);
        assert forall|i: int| 0 <= i < next.values.len() implies #[trigger] next.value_ok(i) by {
            assert(self.value_ok(i));
        }
        assert forall|b: int| 0 <= b < next.bbs.len() implies #[trigger] next.block_ok(b) by {
            assert(self.block_ok(b));
        }
    }
}

impl FuncModel {
    /// A block of the layout keeps its position in every later state of the
    /// function.
    pub proof fn lemma_pos_stays(self, old: FuncModel, bb: BlockId)
        requires
            self.layout_ok(),
            old.layout_ok(),
            self.grows(old),
            old.layout.contains(bb),
        ensures
            self.pos_of(bb) == old.pos_of(bb),
            0 <= old.pos_of(bb) < old.layout.len(),
            self.layout.contains(bb),
    {
    }

    /// A literal can be an operand everywhere.
    pub proof fn lemma_literal_reaches(self, o: ValueId, i: int)
        requires
            self.has_value(o),
            self.kind(o) is Integer,
        ensures
            self.reaches(o, i),
    {
        reveal(FuncModel::reaches);
    }

    /// What stands in a block can be an operand there.
    pub proof fn lemma_stands_reaches(self, o: ValueId, i: int)
        requires
            self.has_value(o),
            self.stands(o, i),
        ensures
            self.reaches(o, i),
    {
        reveal(FuncModel::reaches);
    }

    /// What can be an operand at a position of the layout can be one at every
    /// later position.
    pub proof fn lemma_reaches_later(self, o: ValueId, i: int, later: int)
        requires
            self.reaches(o, i),
            i <= later,
        ensures
            self.reaches(o, later),
    {
        reveal(FuncModel::reaches);
        if !(self.kind(o) is Integer) {
            let k = choose|k: int| 0 <= k <= i && #[trigger] self.stands(o, k);
        }
    }

    /// What stands at a position of the layout stands there in every later
    /// state of the function.
    pub proof fn lemma_stands_stays(self, old: FuncModel, o: ValueId, i: int)
        requires
            self.grows(old),
            old.stands(o, i),
        ensures
            self.stands(o, i),
    {
        let b = old.layout[i].0 as int;
        let j = choose|j: int| 0 <= j < old.bbs[b].insts.len() && old.bbs[b].insts[j] == o;
    }

    /// What can be an operand at a position of the layout can be one there in
    /// every later state of the function.
    pub proof fn lemma_reaches_stays(self, old: FuncModel, o: ValueId, i: int)
        requires
            self.grows(old),
            old.reaches(o, i),
        ensures
            self.reaches(o, i),
    {
        reveal(FuncModel::reaches);
        if !(old.kind(o) is Integer) {
            let k = choose|k: int| 0 <= k <= i && #[trigger] old.stands(o, k);
            self.lemma_stands_stays(old, o, k);
        }
    }

    /// The operands of a kind that can be operands at a position of the layout
    /// can be operands at every later position and in every later state.
    pub proof fn lemma_kind_reaches_stays(self, old: FuncModel, kind: ValueKind, i: int, later: int)
        requires
            self.grows(old),
            old.kind_reaches(kind, i),
            i <= later,
        ensures
            self.kind_reaches(kind, later),
    {
        match kind {
            ValueKind::Load(src) => {
                self.lemma_reaches_stays(old, src, i);
                self.lemma_reaches_later(src, i, later);
            },
            ValueKind::Store(value, dest) => {
                self.lemma_reaches_stays(old, value, i);
                self.lemma_reaches_later(value, i, later);
                self.lemma_reaches_stays(old, dest, i);
                self.lemma_reaches_later(dest, i, later);
            },
            ValueKind::Binary(_, lhs, rhs) => {
                self.lemma_reaches_stays(old, lhs, i);
                self.lemma_reaches_later(lhs, i, later);
                self.lemma_reaches_stays(old, rhs, i);
                self.lemma_reaches_later(rhs, i, later);
            },
            ValueKind::Branch(cond, _, _) => {
                self.lemma_reaches_stays(old, cond, i);
                self.lemma_reaches_later(cond, i, later);
            },
            ValueKind::Return(Some(value)) => {
                self.lemma_reaches_stays(old, value, i);
                self.lemma_reaches_later(value, i, later);
            },
            _ => {},
        }
    }

    /// A function stays ordered when a value is added to the arena, when a
    /// block is added to the arena, and when an empty block is laid out.
    pub proof fn lemma_ordered_grows(self, old: FuncModel)
        requires
            old.ordered(),
            old.layout_ok(),
            self.grows(old),
            forall|b: int| 0 <= b < old.bbs.len() ==> (#[trigger] self.bbs[b]).insts == old.bbs[b].insts,
            forall|i: int|
                old.layout.len() <= i < self.layout.len() ==> self.bbs[(#[trigger] self.layout[i]).0 as int].insts.len()
                    == 0,
        ensures
            self.ordered(),
    {
        reveal(FuncModel::ordered);
        assert forall|i: int, v: ValueId| #[trigger] self.stands(v, i) implies self.has_value(v)
            && self.kind_reaches(self.kind(v), i) by {
            if i < old.layout.len() {
                assert(old.stands(v, i));
                self.lemma_kind_reaches_stays(old, old.kind(v), i, i);
            }
        }
    }

    /// A function stays ordered when the newest value is appended to the block
    /// at a position of the layout and its operands can be operands there.
    pub proof fn lemma_ordered_inst(self, bb: BlockId, v: ValueId, i: int)
        requires
            self.ordered(),
            self.layout_ok(),
            0 <= i < self.layout.len(),
            self.layout[i] == bb,
            self.has_value(v),
            self.kind_reaches(self.kind(v), i),
        ensures
            self.with_inst(bb, v).ordered(),
            self.with_inst(bb, v).stands(v, i),
    {
        reveal(FuncModel::ordered);
        let next = self.with_inst(bb, v);
        let insts = next.bbs[bb.0 as int].insts;
        assert(insts[insts.len() - 1] == v);
        assert forall|k: int, u: ValueId| #[trigger] next.stands(u, k) implies next.has_value(u)
            && next.kind_reaches(next.kind(u), k) by {
            if self.stands(u, k) {
                next.lemma_kind_reaches_stays(self, self.kind(u), k, k);
            } else {
                next.lemma_kind_reaches_stays(self, self.kind(v), i, i);
            }
        }
    }
}

/// In a well-formed function no instruction follows a terminator: a block has
/// at most one terminator, and it is the block's last instruction.
pub proof fn law_terminator_last(func: FuncModel, b: int, j: int)
    requires
        func.wf(),
        0 <= b < func.bbs.len(),
        0 <= j < func.bbs[b].insts.len(),
        func.kind(func.bbs[b].insts[j]).is_terminator(),
    ensures
        j == func.bbs[b].insts.len() - 1,
{
    assert(func.block_ok(b));
}

/// In a well-formed function an instruction stands in a block once at most.
pub proof fn law_instruction_once(func: FuncModel, b: int, j: int, k: int)
    requires
        func.wf(),
        0 <= b < func.bbs.len(),
        0 <= j < func.bbs[b].insts.len(),
        0 <= k < func.bbs[b].insts.len(),
        j != k,
    ensures
        func.bbs[b].insts[j] != func.bbs[b].insts[k],
{
    assert(func.block_ok(b));
}

impl FunctionData {
    /// A function of that name with nothing in it.
    pub fn new(name: String) -> (f: FunctionData)
        ensures
            f@ == FuncModel::empty(name@),
    {
        let f = FunctionData { name, values: Vec::new(), bbs: Vec::new(), layout: Vec::new() };
        assert(f@.bbs =~= Seq::empty());
        f
    }

    /// Adds a value to the arena and returns its handle.
    pub fn new_value(&mut self, kind: ValueKind) -> (v: ValueId)
        ensures
            v == old(self)@.next_value(),
            v.0 == old(self)@.values.len(),
            final(self)@ == old(self)@.with_value(kind),
    {
        let v = ValueId(self.values.len());
        self.values.push(kind);
        v
    }

    /// Adds an empty block to the arena and returns its handle. The block is
    /// not laid out yet.
    pub fn new_bb(&mut self, name: String) -> (bb: BlockId)
        ensures
            bb == old(self)@.next_block(),
            bb.0 == old(self)@.bbs.len(),
            final(self)@ == old(self)@.with_block(name@),
    {
        let bb = BlockId(self.bbs.len());
        self.bbs.push(BasicBlockData { name, insts: Vec::new() });
        assert(self@.bbs =~= old(self)@.with_block(name@).bbs);
        bb
    }

    /// Adds the block at the end of the layout.
    pub fn lay_out(&mut self, bb: BlockId)
        ensures
            final(self)@ == old(self)@.with_layout(bb),
    {
        self.layout.push(bb);
    }

    /// Adds the instruction at the end of the block.
    pub fn push_inst(&mut self, bb: BlockId, v: ValueId)
        requires
            old(self)@.has_block(bb),
        ensures
            final(self)@ == old(self)@.with_inst(bb, v),
    {
        self.bbs[bb.0].insts.push(v);
        assert(self@.bbs =~= old(self)@.with_inst(bb, v).bbs);
    }

    /// Whether the block ends in a terminator.
    pub fn is_terminated(&self, bb: BlockId) -> (t: bool)
        requires
            self@.has_block(bb),
        ensures
            t == self@.terminated(bb),
    {
        let insts = &self.bbs[bb.0].insts;
        let n = insts.len();
        if n == 0 {
            false
        } else {
            let last = insts[n - 1];
            if last.0 < self.values.len() {
                self.values[last.0].ends_block()
            } else {
                false
            }
        }
    }
}

impl FunctionData {
    /// Whether the value was created before position `i` and is an integer.
    fn is_int_before(&self, v: ValueId, i: usize) -> (ok: bool)
        requires
            i <= self.values.len(),
        ensures
            ok == (v.0 < i && self@.is_int(v)),
    {
        v.0 < i && match self.values[v.0].type_kind() {
            TypeKind::Int32 => true,
            _ => false,
        }
    }

    /// Whether the value was created before position `i` and is a slot.
    fn is_slot_before(&self, v: ValueId, i: usize) -> (ok: bool)
        requires
            i <= self.values.len(),
        ensures
            ok == (v.0 < i && self@.is_slot(v)),
    {
        v.0 < i && match self.values[v.0] {
            ValueKind::Alloc => true,
            _ => false,
        }
    }

    /// Whether the operands of the value at position `i` exist, were created
    /// before it, and have the types that the instruction takes.
    pub fn value_is_ok(&self, i: usize) -> (ok: bool)
        requires
            i < self.values.len(),
        ensures
            ok == self@.value_ok(i as int),
    {
        let blocks = self.bbs.len();
        match self.values[i] {
            ValueKind::Integer(_) => true,
            ValueKind::Alloc => true,
            ValueKind::Load(src) => self.is_slot_before(src, i),
            ValueKind::Store(value, dest) => self.is_int_before(value, i) && self.is_slot_before(
                dest,
                i,
            ),
            ValueKind::Binary(_, lhs, rhs) => self.is_int_before(lhs, i) && self.is_int_before(
                rhs,
                i,
            ),
            ValueKind::Branch(cond, t, f) => self.is_int_before(cond, i) && t.0 < blocks && f.0
                < blocks,
            ValueKind::Jump(target) => target.0 < blocks,
            ValueKind::Return(None) => true,
            ValueKind::Return(Some(value)) => self.is_int_before(value, i),
        }
    }

    /// Whether the block at position `b` holds existing instructions, in the
    /// order of their creation, and none after a terminator.
    pub fn block_is_ok(&self, b: usize) -> (ok: bool)
        requires
            b < self.bbs.len(),
        ensures
            ok == self@.block_ok(b as int),
    {
        let insts = &self.bbs[b].insts;
        let n = insts.len();
        let mut j: usize = 0;
        while j < n
            invariant
                j <= n,
                n == insts.len(),
                insts@ == self@.bbs[b as int].insts,
                forall|k: int|
                    0 <= k < j ==> self@.has_value(#[trigger] insts@[k]) && self@.kind(
                        insts@[k],
                    ).is_inst(),
                forall|k: int, l: int| 0 <= k < l < j ==> insts@[k].0 < insts@[l].0,
                forall|k: int|
                    0 <= k < j && k < n - 1 ==> !self@.kind(#[trigger] insts@[k]).is_terminator(),
            decreases n - j,
        {
            let v = insts[j];
            if v.0 >= self.values.len() {
                return false;
            }
            match self.values[v.0] {
                ValueKind::Integer(_) => {
                    return false;
                },
                _ => {},
            }
            if j > 0 && insts[j - 1].0 >= v.0 {
                return false;
            }
            if j + 1 < n && self.values[v.0].ends_block() {
                return false;
            }
            j += 1;
        }
        true
    }

    /// Whether the layout names existing blocks, each at most once.
    pub fn layout_is_ok(&self) -> (ok: bool)
        ensures
            ok == self@.layout_ok(),
    {
        let mut seen: Vec<bool> = Vec::new();
        let mut b: usize = 0;
        while b < self.bbs.len()
            invariant
                b <= self.bbs.len(),
                seen@.len() == b,
                forall|k: int| 0 <= k < b ==> !seen@[k],
            decreases self.bbs.len() - b,
        {
            seen.push(false);
            b += 1;
        }
        let mut i: usize = 0;
        while i < self.layout.len()
            invariant
                i <= self.layout.len(),
                seen@.len() == self.bbs.len(),
                self@.bbs.len() == self.bbs.len(),
                self@.layout == self.layout@,
                forall|k: int| 0 <= k < i ==> self@.has_block(#[trigger] self.layout@[k]),
                forall|k: int, l: int| 0 <= k < l < i ==> self.layout@[k] != self.layout@[l],
                forall|x: int|
                    0 <= x < seen@.len() ==> (#[trigger] seen@[x] <==> exists|k: int|
                        0 <= k < i && (#[trigger] self.layout@[k]).0 == x),
            decreases self.layout.len() - i,
        {
            let bb = self.layout[i];
            if bb.0 >= self.bbs.len() {
                return false;
            }
            if seen[bb.0] {
                return false;
            }
            seen.set(bb.0, true);
            i += 1;
        }
        true
    }

    /// Whether the function is well-formed.
    pub fn is_well_formed(&self) -> (ok: bool)
        ensures
            ok == self@.wf(),
    {
        let mut i: usize = 0;
        while i < self.values.len()
            invariant
                i <= self.values.len(),
                self@.values.len() == self.values.len(),
                forall|k: int| 0 <= k < i ==> #[trigger] self@.value_ok(k),
            decreases self.values.len() - i,
        {
            if !self.value_is_ok(i) {
                return false;
            }
            i += 1;
        }
        let mut b: usize = 0;
        while b < self.bbs.len()
            invariant
                b <= self.bbs.len(),
                self@.bbs.len() == self.bbs.len(),
                forall|k: int| 0 <= k < self@.values.len() ==> #[trigger] self@.value_ok(k),
                forall|k: int| 0 <= k < b ==> #[trigger] self@.block_ok(k),
            decreases self.bbs.len() - b,
        {
            if !self.block_is_ok(b) {
                return false;
            }
            b += 1;
        }
        self.layout_is_ok()
    }
}

/// A program: its functions in order.
#[derive(Debug)]
pub struct Module {
    pub funcs: Vec<FunctionData>,
}

impl Module {
    /// Every function is well-formed, and the operands of its instructions
    /// stand before them.
    pub open spec fn wf(self) -> bool {
        forall|i: int|
            0 <= i < self.funcs.len() ==> (#[trigger] self.funcs[i])@.wf() && self.funcs[i]@.ordered()
    }
}

} // verus!
