//! The builder: the state of a lowering in progress and the steps that
//! change it.
//!
//! The syntax tree is walked depth first and left to right, so instructions
//! are emitted in the order in which the source evaluates. A cursor names the
//! block that receives the next instruction. A block that ends in a terminator
//! receives no more: the next instruction opens a new block.

use vstd::prelude::*;
use crate::ir::entities::{BlockId, FuncModel, FunctionData, ValueId, ValueKind};
use crate::ir::label::{label, label_text, labelled, BlockTag};
use crate::ir::vm::{scopes_insert, scopes_pop, Decl, Frame, ValueManager};

verus! {

/// State of a lowering in progress: the function under construction, the
/// cursor, and the names in scope.
pub struct Builder {
    pub func: FunctionData,
    pub bb: BlockId,
    pub vm: ValueManager,
}

/// Every variable in scope is bound to a slot that can be an operand in the
/// block at position `i` of the layout.
#[verifier::opaque]
pub open spec fn scopes_reach(func: FuncModel, scopes: Seq<Frame>, i: int) -> bool {
    forall|k: int, name: Seq<char>|
        0 <= k < scopes.len() && (#[trigger] scopes[k].contains_key(name)) ==> (
        scopes[k][name] matches Decl::Var(p) ==> func.is_slot(p) && func.reaches(p, i))
}

/// Variables that can be operands at a position of the layout can be operands
/// at every later position and in every later state of the function.
pub proof fn lemma_scopes_reach(
    new: FuncModel,
    old: FuncModel,
    scopes: Seq<Frame>,
    i: int,
    later: int,
)
    requires
        new.grows(old),
        scopes_reach(old, scopes, i),
        i <= later,
    ensures
        scopes_reach(new, scopes, later),
{
    reveal(scopes_reach);
    assert forall|k: int, name: Seq<char>|
        0 <= k < scopes.len() && (#[trigger] scopes[k].contains_key(name)) implies (
    scopes[k][name] matches Decl::Var(p) ==> new.is_slot(p) && new.reaches(p, later)) by {
        if scopes[k][name] is Var {
            let p = scopes[k][name]->Var_0;
            new.lemma_reaches_stays(old, p, i);
            new.lemma_reaches_later(p, i, later);
        }
    }
}

/// The bindings of the variables in scope stay in order when a scope is
/// entered or left.
pub proof fn lemma_scopes_nest(func: FuncModel, scopes: Seq<Frame>, i: int)
    requires
        scopes_reach(func, scopes, i),
    ensures
        scopes_reach(func, scopes.push(Map::empty()), i),
        scopes_reach(func, scopes_pop(scopes), i),
{
    reveal(scopes_reach);
}

/// The bindings of the variables in scope stay in order when a name is bound
/// to a constant, or to a slot that can be an operand.
pub proof fn lemma_scopes_bind(
    func: FuncModel,
    scopes: Seq<Frame>,
    i: int,
    name: Seq<char>,
    decl: Decl,
)
    requires
        scopes_reach(func, scopes, i),
        scopes.len() > 0,
        decl matches Decl::Var(p) ==> func.is_slot(p) && func.reaches(p, i),
    ensures
        scopes_reach(func, scopes_insert(scopes, name, decl), i),
{
    reveal(scopes_reach);
}

/// A variable that is in scope is bound to a slot that can be an operand.
pub proof fn lemma_scopes_var(func: FuncModel, scopes: Seq<Frame>, i: int, k: int, name: Seq<char>)
    requires
        scopes_reach(func, scopes, i),
        0 <= k < scopes.len(),
        scopes[k].contains_key(name),
        scopes[k][name] is Var,
    ensures
        func.is_slot(scopes[k][name]->Var_0),
        func.reaches(scopes[k][name]->Var_0, i),
{
    reveal(scopes_reach);
}

/// Mathematical content of a builder.
pub ghost struct BuilderModel {
    pub func: FuncModel,
    pub bb: BlockId,
    pub scopes: Seq<Frame>,
}

impl View for Builder {
    type V = BuilderModel;

    open spec fn view(&self) -> BuilderModel {
        BuilderModel { func: self.func@, bb: self.bb, scopes: self.vm@ }
    }
}

impl BuilderModel {
    /// The state in which lowering starts: a function with its entry block
    /// laid out, the cursor on it, and no scope.
    pub open spec fn start(name: Seq<char>) -> BuilderModel {
        BuilderModel {
            func: FuncModel::empty(name).with_block(label_text(BlockTag::Main, 0)).with_layout(
                BlockId(0),
            ),
            bb: BlockId(0),
            scopes: Seq::empty(),
        }
    }

    /// Creates a block, labelled with the tag and the next serial number.
    pub open spec fn fresh_block(self, tag: BlockTag) -> (BuilderModel, BlockId) {
        (
            BuilderModel {
                func: self.func.with_block(label_text(tag, self.func.bbs.len())),
                ..self
            },
            self.func.next_block(),
        )
    }

    /// Lays the block out.
    pub open spec fn lay_out(self, bb: BlockId) -> BuilderModel {
        BuilderModel { func: self.func.with_layout(bb), ..self }
    }

    /// Moves the cursor.
    pub open spec fn at(self, bb: BlockId) -> BuilderModel {
        BuilderModel { bb, ..self }
    }

    /// Makes sure that the cursor is on a block that can take an instruction:
    /// where the block ends in a terminator, a new block is laid out and the
    /// cursor moves there.
    pub open spec fn open_block(self) -> BuilderModel {
        if self.func.terminated(self.bb) {
            let (s, bb) = self.fresh_block(BlockTag::Ret);
            s.lay_out(bb).at(bb)
        } else {
            self
        }
    }

    /// Creates an integer literal. It belongs to no block.
    pub open spec fn constant(self, n: i32) -> (BuilderModel, ValueId) {
        (
            BuilderModel { func: self.func.with_value(ValueKind::Integer(n)), ..self },
            self.func.next_value(),
        )
    }

    /// Creates an instruction and appends it at the cursor.
    #[verifier::opaque]
    pub open spec fn emit(self, kind: ValueKind) -> (BuilderModel, ValueId) {
        let s = self.open_block();
        let v = s.func.next_value();
        (BuilderModel { func: s.func.with_value(kind).with_inst(s.bb, v), ..s }, v)
    }

    /// Enters a scope.
    pub open spec fn push_scope(self) -> BuilderModel {
        BuilderModel { scopes: self.scopes.push(Map::empty()), ..self }
    }

    /// Leaves a scope.
    pub open spec fn pop_scope(self) -> BuilderModel {
        BuilderModel { scopes: scopes_pop(self.scopes), ..self }
    }

    /// Binds a name in the innermost scope.
    pub open spec fn bind(self, name: Seq<char>, decl: Decl) -> BuilderModel {
        BuilderModel { scopes: scopes_insert(self.scopes, name, decl), ..self }
    }

    /// The position of the cursor in the layout.
    pub open spec fn pos(self) -> int {
        self.func.pos_of(self.bb)
    }

    /// The value can be an operand of the next instruction: it is a literal,
    /// or it stands in the cursor's block or in a block laid out before.
    pub open spec fn sees(self, o: ValueId) -> bool {
        self.func.reaches(o, self.pos())
    }

    /// The operands of an instruction of that kind can be operands of the
    /// next instruction.
    pub open spec fn sees_kind(self, kind: ValueKind) -> bool {
        self.func.kind_reaches(kind, self.pos())
    }

    /// Every variable in scope is bound to a slot that the next instruction
    /// can use.
    pub open spec fn scopes_ok(self) -> bool {
        scopes_reach(self.func, self.scopes, self.pos())
    }

    /// Well-formedness: the function is well-formed, ordered and tidy and its
    /// blocks are labelled, the cursor is on a block of the layout, and every
    /// variable in scope is bound to a slot that the next instruction can use.
    pub open spec fn wf(self) -> bool {
        &&& self.func.wf()
        &&& self.func.ordered()
        &&& self.func.tidy()
        &&& labelled(self.func)
        &&& self.func.has_block(self.bb)
        &&& self.func.layout.contains(self.bb)
        &&& self.scopes_ok()
    }

    /// `self` is a later state of `old` in which the cursor is not nearer to
    /// the start of the layout: what the next instruction could use in `old`
    /// it can use in `self`.
    pub open spec fn after(self, old: BuilderModel) -> bool {
        self.func.grows(old.func) && self.pos() >= old.pos()
    }
}

impl BuilderModel {
    /// What the next instruction can use it can use in every later state in
    /// which the cursor is not nearer to the start of the layout.
    pub proof fn lemma_after_sees(self, old: BuilderModel, o: ValueId)
        requires
            self.after(old),
            old.sees(o),
        ensures
            self.sees(o),
    {
        self.func.lemma_reaches_stays(old.func, o, old.pos());
        self.func.lemma_reaches_later(o, old.pos(), self.pos());
    }

    /// A later state with the same names in scope keeps its bindings in order.
    pub proof fn lemma_scopes_stay(self, old: BuilderModel)
        requires
            old.scopes_ok(),
            self.after(old),
            self.scopes == old.scopes,
        ensures
            self.scopes_ok(),
    {
        lemma_scopes_reach(self.func, old.func, old.scopes, old.pos(), self.pos());
    }

    /// Creating a block keeps a builder well-formed; the block is empty and
    /// not laid out, and the cursor stays where it is.
    pub proof fn lemma_fresh_block(self, tag: BlockTag)
        requires
            self.wf(),
            self.func.bbs.len() <= usize::MAX,
        ensures
            self.fresh_block(tag).0.wf(),
            self.fresh_block(tag).0.after(self),
            self.fresh_block(tag).0.pos() == self.pos(),
            self.fresh_block(tag).0.func.has_block(self.fresh_block(tag).1),
            !self.fresh_block(tag).0.func.layout.contains(self.fresh_block(tag).1),
            self.fresh_block(tag).1.0 == self.func.bbs.len(),
    {
        reveal(FuncModel::tidy);
        let next = self.fresh_block(tag).0;
        self.func.lemma_with_block(label_text(tag, self.func.bbs.len()));
        next.func.lemma_ordered_grows(self.func);
        next.lemma_scopes_stay(self);
    }

    /// Laying out a block that is not laid out yet keeps a builder
    /// well-formed; the block is the last of the layout, and the cursor stays
    /// where it is.
    pub proof fn lemma_lay_out(self, bb: BlockId)
        requires
            self.wf(),
            self.func.has_block(bb),
            !self.func.layout.contains(bb),
        ensures
            self.lay_out(bb).wf(),
            self.lay_out(bb).after(self),
            self.lay_out(bb).pos() == self.pos(),
            self.lay_out(bb).func.layout.contains(bb),
            self.lay_out(bb).func.pos_of(bb) == self.func.layout.len(),
            self.pos() < self.func.layout.len(),
    {
        let next = self.lay_out(bb);
        self.func.lemma_with_layout(bb);
        assert(next.func.layout[self.func.layout.len() as int] == bb);
        next.func.lemma_pos_stays(self.func, self.bb);
        reveal(FuncModel::tidy);
        next.func.lemma_ordered_grows(self.func);
        assert forall|b: BlockId| next.func.has_block(b) && !next.func.layout.contains(b) implies (
        #[trigger] next.func.bbs[b.0 as int]).insts.len() == 0 by {
            if self.func.layout.contains(b) {
                let i = choose|i: int| 0 <= i < self.func.layout.len() && self.func.layout[i] == b;
                assert(next.func.layout[i] == b);
            }
        }
        next.lemma_scopes_stay(self);
    }

    /// Opening a block keeps a builder well-formed, and the cursor's block then
    /// takes an instruction.
    pub proof fn lemma_open_block(self)
        requires
            self.wf(),
            self.func.bbs.len() <= usize::MAX,
        ensures
            self.open_block().wf(),
            self.open_block().after(self),
            self.open_block().func.extends(self.func),
            !self.open_block().func.terminated(self.open_block().bb),
            self.open_block().scopes == self.scopes,
    {
        if self.func.terminated(self.bb) {
            self.lemma_fresh_block(BlockTag::Ret);
            let (s, bb) = self.fresh_block(BlockTag::Ret);
            s.lemma_lay_out(bb);
            let t = s.lay_out(bb);
            let u = t.at(bb);
            assert(u.scopes_ok()) by {
                u.lemma_scopes_stay(t);
            }
        }
    }

    /// Emitting an instruction whose operands are in order keeps a builder
    /// well-formed; the instruction is the last of the cursor's block.
    pub proof fn lemma_emit(self, kind: ValueKind)
        requires
            self.wf(),
            self.func.accepts(kind),
            self.sees_kind(kind),
            kind.is_inst(),
            self.func.bbs.len() <= usize::MAX,
            self.func.values.len() <= usize::MAX,
        ensures
            self.emit(kind).0.wf(),
            self.emit(kind).0.after(self),
            self.emit(kind).0.func.extends(self.func),
            self.emit(kind).0.scopes == self.scopes,
            self.emit(kind).0.func.has_value(self.emit(kind).1),
            self.emit(kind).0.func.kind(self.emit(kind).1) == kind,
            self.emit(kind).0.sees(self.emit(kind).1),
            self.emit(kind).0.func.terminated(self.emit(kind).0.bb) == kind.is_terminator(),
    {
        reveal(BuilderModel::emit);
        self.lemma_open_block();
        let mid = self.open_block();
        let p = mid.pos();
        mid.func.lemma_with_value(kind);
        let f = mid.func.with_value(kind);
        let v = mid.func.next_value();
        f.lemma_ordered_grows(mid.func);
        f.lemma_kind_reaches_stays(self.func, kind, self.pos(), p);
        assert forall|b: int, j: int|
            0 <= b < f.bbs.len() && 0 <= j < f.bbs[b].insts.len() implies (
        #[trigger] f.bbs[b].insts[j]).0 < v.0 by {
            assert(mid.func.block_ok(b));
        }
        f.lemma_with_inst(mid.bb, v);
        f.lemma_ordered_inst(mid.bb, v, p);
        let g = f.with_inst(mid.bb, v);
        g.lemma_stands_reaches(v, p);
        let insts = g.bbs[mid.bb.0 as int].insts;
        let next = self.emit(kind).0;
        assert(next.func.tidy()) by {
            reveal(FuncModel::tidy);
        }
        next.lemma_scopes_stay(self);
    }
}

impl Builder {
    /// A builder for a function of that name, in the starting state.
    pub fn new(name: String) -> (b: Builder)
        ensures
            b@ == BuilderModel::start(name@),
            b@.wf(),
    {
        let mut func = FunctionData::new(name);
        let entry = func.new_bb(label(BlockTag::Main, 0));
        func.lay_out(entry);
        let b = Builder { func, bb: entry, vm: ValueManager::new() };
        proof {
            assert(b@.func.layout[0] == entry);
            reveal(FuncModel::ordered);
            reveal(FuncModel::tidy);
            reveal(scopes_reach);
        }
        b
    }

    /// The arenas of a builder have lengths that fit a machine word.
    pub proof fn lemma_sizes(&self)
        ensures
            self@.func.bbs.len() <= usize::MAX,
            self@.func.values.len() <= usize::MAX,
    {
        assert(self.func.bbs@.len() == self.func.bbs.len());
        assert(self.func.values@.len() == self.func.values.len());
    }

    /// Creates a block, labelled with the tag and the next serial number.
    pub fn fresh_block(&mut self, tag: BlockTag) -> (bb: BlockId)
        requires
            old(self)@.wf(),
        ensures
            (final(self)@, bb) == old(self)@.fresh_block(tag),
            final(self)@.wf(),
            final(self)@.after(old(self)@),
            final(self)@.pos() == old(self)@.pos(),
            final(self)@.func.has_block(bb),
            !final(self)@.func.layout.contains(bb),
            bb.0 == old(self)@.func.bbs.len(),
    {
        let serial = self.func.bbs.len();
        proof {
            self@.lemma_fresh_block(tag);
        }
        self.func.new_bb(label(tag, serial))
    }

    /// Lays the block out.
    pub fn lay_out(&mut self, bb: BlockId)
        requires
            old(self)@.wf(),
            old(self)@.func.has_block(bb),
            !old(self)@.func.layout.contains(bb),
        ensures
            final(self)@ == old(self)@.lay_out(bb),
            final(self)@.wf(),
            final(self)@.after(old(self)@),
            final(self)@.pos() == old(self)@.pos(),
            final(self)@.func.layout.contains(bb),
            final(self)@.func.pos_of(bb) == old(self)@.func.layout.len(),
            old(self)@.pos() < old(self)@.func.layout.len(),
    {
        proof {
            self@.lemma_lay_out(bb);
        }
        self.func.lay_out(bb);
    }

    /// Moves the cursor to a block of the layout at which the variables in
    /// scope can be used.
    pub fn move_to(&mut self, bb: BlockId)
        requires
            old(self)@.wf(),
            old(self)@.func.has_block(bb),
            old(self)@.func.layout.contains(bb),
            old(self)@.at(bb).scopes_ok(),
        ensures
            final(self)@ == old(self)@.at(bb),
            final(self)@.wf(),
    {
        self.bb = bb;
    }

    /// Makes sure that the cursor is on a block that can take an instruction.
    pub fn open_block(&mut self)
        requires
            old(self)@.wf(),
        ensures
            final(self)@ == old(self)@.open_block(),
            final(self)@.wf(),
            final(self)@.after(old(self)@),
            final(self)@.func.extends(old(self)@.func),
            !final(self)@.func.terminated(final(self)@.bb),
    {
        if self.func.is_terminated(self.bb) {
            let bb = self.fresh_block(BlockTag::Ret);
            self.lay_out(bb);
            proof {
                let s = self@;
                lemma_scopes_reach(s.func, s.func, s.scopes, s.pos(), s.func.pos_of(bb));
            }
            self.move_to(bb);
        }
    }

    /// Creates an integer literal.
    pub fn constant(&mut self, n: i32) -> (v: ValueId)
        requires
            old(self)@.wf(),
        ensures
            (final(self)@, v) == old(self)@.constant(n),
            final(self)@.wf(),
            final(self)@.after(old(self)@),
            final(self)@.func.extends(old(self)@.func),
            final(self)@.func.is_int(v),
            final(self)@.func.kind(v) == ValueKind::Integer(n),
            final(self)@.sees(v),
            final(self)@.func.terminated(final(self)@.bb) == old(self)@.func.terminated(
                old(self)@.bb,
            ),
    {
        let ghost before = self@;
        let v = self.func.new_value(ValueKind::Integer(n));
        proof {
            before.func.lemma_with_value(ValueKind::Integer(n));
            self@.func.lemma_ordered_grows(before.func);
            self@.lemma_scopes_stay(before);
            self@.func.lemma_literal_reaches(v, self@.pos());
            reveal(FuncModel::tidy);
        }
        v
    }

    /// Creates an instruction and appends it at the cursor.
    pub fn emit(&mut self, kind: ValueKind) -> (v: ValueId)
        requires
            old(self)@.wf(),
            old(self)@.func.accepts(kind),
            old(self)@.sees_kind(kind),
            kind.is_inst(),
        ensures
            (final(self)@, v) == old(self)@.emit(kind),
            final(self)@.wf(),
            final(self)@.after(old(self)@),
            final(self)@.func.extends(old(self)@.func),
            final(self)@.scopes == old(self)@.scopes,
            final(self)@.func.has_value(v),
            final(self)@.func.kind(v) == kind,
            final(self)@.sees(v),
            final(self)@.func.terminated(final(self)@.bb) == kind.is_terminator(),
    {
        proof {
            reveal(BuilderModel::emit);
            self.lemma_sizes();
            self@.lemma_emit(kind);
        }
        self.open_block();
        let v = self.func.new_value(kind);
        self.func.push_inst(self.bb, v);
        v
    }

    /// Enters a scope.
    pub fn push_scope(&mut self)
        requires
            old(self)@.wf(),
        ensures
            final(self)@ == old(self)@.push_scope(),
            final(self)@.wf(),
            final(self)@.after(old(self)@),
    {
        proof {
            lemma_scopes_nest(self@.func, self@.scopes, self@.pos());
        }
        self.vm.push();
    }

    /// Leaves a scope.
    pub fn pop_scope(&mut self)
        requires
            old(self)@.wf(),
        ensures
            final(self)@ == old(self)@.pop_scope(),
            final(self)@.wf(),
            final(self)@.after(old(self)@),
    {
        proof {
            lemma_scopes_nest(self@.func, self@.scopes, self@.pos());
        }
        self.vm.pop();
    }
}

} // verus!
