//! Lowering of statements, declarations, blocks and the compilation unit.

use vstd::prelude::*;
use vstd::pervasive::unreached;
use crate::error::BuildError;
use crate::ir::builder::{
    lemma_scopes_bind,
    lemma_scopes_nest,
    lemma_scopes_reach,
    scopes_reach,
    Builder,
    BuilderModel,
};
use crate::ir::label::{labelled, BlockTag};
use crate::ir::calc::eval;
use crate::ir::entities::{BlockId, FuncModel, Module, ValueId, ValueKind};
use crate::ir::exp::{lemma_get_in_scope, lower_exp};
use crate::ir::structs::{
    Block,
    BlockItem,
    CompUnit,
    ConstDecl,
    ConstDef,
    Decl,
    Exp,
    Stmt,
    VarDecl,
    VarDef,
};
use crate::ir::vm;
use crate::ir::vm::{scopes_cur_exist, scopes_get};

verus! {

/// The three blocks of a conditional.
#[derive(Clone, Copy, Debug)]
pub struct IfBlocks {
    /// Block of the true arm.
    pub then_bb: BlockId,
    /// Block of the false arm.
    pub else_bb: BlockId,
    /// Block in which the arms meet. It is laid out only if an arm reaches it.
    pub end: BlockId,
}

/// Start of a conditional, after the condition `cv`: the three blocks are
/// created, those of the arms are laid out, and the cursor's block branches
/// to them. The cursor moves to the true arm, in a scope of its own.
pub open spec fn if_head(s: BuilderModel, cv: ValueId) -> (BuilderModel, IfBlocks) {
    let (s1, then_bb) = s.fresh_block(BlockTag::If);
    let (s2, else_bb) = s1.fresh_block(BlockTag::Else);
    let (s3, end) = s2.fresh_block(BlockTag::IfEnd);
    let s4 = s3.lay_out(then_bb).lay_out(else_bb);
    let (s5, _) = s4.emit(ValueKind::Branch(cv, then_bb, else_bb));
    (s5.at(then_bb).push_scope(), IfBlocks { then_bb, else_bb, end })
}

/// End of an arm: control goes to `end`, unless the cursor's block ends in a
/// terminator already. Also says whether it does go there.
pub open spec fn close_arm(s: BuilderModel, end: BlockId) -> (BuilderModel, bool) {
    if s.func.terminated(s.bb) {
        (s, false)
    } else {
        (s.emit(ValueKind::Jump(end)).0, true)
    }
}

/// Between the arms: the true arm is closed and its scope left. The cursor
/// moves to the false arm.
pub open spec fn if_mid(s: BuilderModel, ib: IfBlocks) -> (BuilderModel, bool) {
    let (s1, joined) = close_arm(s, ib.end);
    (s1.pop_scope().at(ib.else_bb), joined)
}

/// End of a conditional: the false arm is closed. Where an arm reaches the end
/// block, it is laid out and the cursor moves there; where both arms end in
/// a terminator, there is no end block and the cursor stays.
pub open spec fn if_tail(s: BuilderModel, ib: IfBlocks, joined: bool) -> BuilderModel {
    let (s1, joined_else) = close_arm(s, ib.end);
    if joined || joined_else {
        s1.lay_out(ib.end).at(ib.end)
    } else {
        s1
    }
}

/// An assignment of the lowered value `v`: a store to the variable's slot.
pub open spec fn lower_assign(s: BuilderModel, name: Seq<char>, v: ValueId) -> Result<
    BuilderModel,
    BuildError,
> {
    match scopes_get(s.scopes, name) {
        None => Err(BuildError::UndefinedSymbol),
        Some(vm::Decl::Const(_)) => Err(BuildError::AssignmentToConstant),
        Some(vm::Decl::Var(p)) => Ok(s.emit(ValueKind::Store(v, p)).0),
    }
}

/// Binds a name in the innermost scope, unless that scope binds it already.
pub open spec fn declare(s: BuilderModel, name: Seq<char>, decl: vm::Decl) -> Result<
    BuilderModel,
    BuildError,
> {
    if scopes_cur_exist(s.scopes, name) {
        Err(BuildError::DuplicateDeclaration)
    } else {
        Ok(s.bind(name, decl))
    }
}

/// A constant definition: the initializer is evaluated and the name bound to
/// its value. Nothing is emitted.
pub open spec fn lower_const_def(s: BuilderModel, def: ConstDef) -> Result<
    BuilderModel,
    BuildError,
> {
    match eval(s.scopes, def.value) {
        Err(err) => Err(err),
        Ok(c) => declare(s, def.ident@, vm::Decl::Const(c)),
    }
}

/// A variable definition: a slot is reserved, the initializer, if there is
/// one, is lowered, the name is bound to the slot, and the initializer's value
/// is stored.
pub open spec fn lower_var_def(s: BuilderModel, def: VarDef) -> Result<BuilderModel, BuildError> {
    match def {
        VarDef::Ident(name) => {
            let (s1, p) = s.emit(ValueKind::Alloc);
            declare(s1, name@, vm::Decl::Var(p))
        },
        VarDef::InitVal(name, e) => {
            let (s1, p) = s.emit(ValueKind::Alloc);
            match lower_exp(s1, e) {
                Err(err) => Err(err),
                Ok((s2, v)) => match declare(s2, name@, vm::Decl::Var(p)) {
                    Err(err) => Err(err),
                    Ok(s3) => Ok(s3.emit(ValueKind::Store(v, p)).0),
                },
            }
        },
    }
}

/// The constant definitions from position `from` on, in order.
pub open spec fn lower_const_defs(s: BuilderModel, defs: Seq<ConstDef>, from: int) -> Result<
    BuilderModel,
    BuildError,
>
    decreases defs.len() - from,
{
    if from < 0 || from >= defs.len() {
        Ok(s)
    } else {
        match lower_const_def(s, defs[from]) {
            Err(err) => Err(err),
            Ok(s1) => lower_const_defs(s1, defs, from + 1),
        }
    }
}

/// The variable definitions from position `from` on, in order.
pub open spec fn lower_var_defs(s: BuilderModel, defs: Seq<VarDef>, from: int) -> Result<
    BuilderModel,
    BuildError,
>
    decreases defs.len() - from,
{
    if from < 0 || from >= defs.len() {
        Ok(s)
    } else {
        match lower_var_def(s, defs[from]) {
            Err(err) => Err(err),
            Ok(s1) => lower_var_defs(s1, defs, from + 1),
        }
    }
}

/// A declaration statement.
pub open spec fn lower_decl(s: BuilderModel, decl: Decl) -> Result<BuilderModel, BuildError> {
    match decl {
        Decl::Const(c) => lower_const_defs(s, c.defs@, 0),
        Decl::Var(v) => lower_var_defs(s, v.defs@, 0),
    }
}

/// What lowering a statement adds to the function under construction.
pub open spec fn lower_stmt(s: BuilderModel, stmt: Stmt) -> Result<BuilderModel, BuildError>
    decreases stmt, 0nat,
{
    match stmt {
        Stmt::Assign(name, e) => match lower_exp(s, e) {
            Err(err) => Err(err),
            Ok((s1, v)) => lower_assign(s1, name@, v),
        },
        Stmt::Exp(_) => Ok(s),
        Stmt::Block(block) => lower_block(s, block),
        Stmt::If(c, t, f) => match lower_exp(s, c) {
            Err(err) => Err(err),
            Ok((s1, cv)) => {
                let (s2, ib) = if_head(s1, cv);
                match lower_stmt(s2, *t) {
                    Err(err) => Err(err),
                    Ok(s3) => {
                        let (s4, joined) = if_mid(s3, ib);
                        match f {
                            None => Ok(if_tail(s4, ib, joined)),
                            Some(fs) => match lower_stmt(s4.push_scope(), *fs) {
                                Err(err) => Err(err),
                                Ok(s5) => Ok(if_tail(s5.pop_scope(), ib, joined)),
                            },
                        }
                    },
                }
            },
        },
        Stmt::Ret(None) => Ok(s),
        Stmt::Ret(Some(e)) => match lower_exp(s, e) {
            Err(err) => Err(err),
            Ok((s1, v)) => Ok(s1.emit(ValueKind::Return(Some(v))).0),
        },
    }
}

/// A block: its items in a scope of their own.
pub open spec fn lower_block(s: BuilderModel, block: Block) -> Result<BuilderModel, BuildError>
    decreases block, 0nat,
{
    match lower_items(s.push_scope(), block.items@, 0) {
        Err(err) => Err(err),
        Ok(s1) => Ok(s1.pop_scope()),
    }
}

/// The items of a block from position `from` on, in order.
pub open spec fn lower_items(s: BuilderModel, items: Seq<BlockItem>, from: int) -> Result<
    BuilderModel,
    BuildError,
>
    decreases items, items.len() - from,
{
    if from < 0 || from >= items.len() {
        Ok(s)
    } else {
        let first = match items[from] {
            BlockItem::Decl(d) => lower_decl(s, d),
            BlockItem::Stmt(st) => lower_stmt(s, st),
        };
        match first {
            Err(err) => Err(err),
            Ok(s1) => lower_items(s1, items, from + 1),
        }
    }
}

/// An item of a block.
pub open spec fn lower_item(s: BuilderModel, item: BlockItem) -> Result<BuilderModel, BuildError> {
    match item {
        BlockItem::Decl(d) => lower_decl(s, d),
        BlockItem::Stmt(st) => lower_stmt(s, st),
    }
}

/// The function that a compilation unit lowers to.
pub open spec fn lower_unit(unit: CompUnit) -> Result<FuncModel, BuildError> {
    match lower_block(BuilderModel::start(unit.func_def.ident@), unit.func_def.block) {
        Err(err) => Err(err),
        Ok(s) => Ok(s.func),
    }
}

impl IfBlocks {
    /// The blocks exist; those of the arms are laid out, the true arm before
    /// the false arm, the end block is not; the variables in scope can be
    /// operands in the arms.
    pub open spec fn ok_in(self, s: BuilderModel) -> bool {
        &&& s.func.has_block(self.then_bb)
        &&& s.func.has_block(self.else_bb)
        &&& s.func.has_block(self.end)
        &&& s.func.layout.contains(self.then_bb)
        &&& s.func.layout.contains(self.else_bb)
        &&& !s.func.layout.contains(self.end)
        &&& s.func.pos_of(self.then_bb) < s.func.pos_of(self.else_bb)
        &&& scopes_reach(s.func, s.scopes, s.func.pos_of(self.then_bb) - 1)
    }

    /// What holds of the blocks holds in every later state in which nothing
    /// but new blocks was laid out and the names in scope are the same.
    pub proof fn lemma_stays(self, old: BuilderModel, new: BuilderModel)
        requires
            old.wf(),
            new.wf(),
            new.func.extends(old.func),
            new.scopes == old.scopes,
            self.ok_in(old),
        ensures
            self.ok_in(new),
            new.func.pos_of(self.then_bb) == old.func.pos_of(self.then_bb),
            new.func.pos_of(self.else_bb) == old.func.pos_of(self.else_bb),
    {
        let floor = old.func.pos_of(self.then_bb) - 1;
        lemma_scopes_reach(new.func, old.func, old.scopes, floor, floor);
    }
}

/// At the end of a conditional the end block is laid out exactly if an arm
/// reaches it: if the true arm did, or the block under the cursor does not end
/// in a terminator. No block has an instruction after a terminator, whichever
/// it is.
pub proof fn law_end_block(s: BuilderModel, ib: IfBlocks, joined: bool)
    requires
        s.wf(),
        ib.ok_in(s),
        s.func.bbs.len() <= usize::MAX,
        s.func.values.len() <= usize::MAX,
    ensures
        if_tail(s, ib, joined).wf(),
        if_tail(s, ib, joined).func.layout.contains(ib.end) <==> (joined || !s.func.terminated(
            s.bb,
        )),
        if_tail(s, ib, joined).func.layout.contains(ib.end) ==> if_tail(s, ib, joined).bb
            == ib.end,
{
    let (s1, joined_else) = close_arm(s, ib.end);
    if !s.func.terminated(s.bb) {
        s.lemma_emit(ValueKind::Jump(ib.end));
    }
    if joined || joined_else {
        s1.lemma_lay_out(ib.end);
        let s2 = s1.lay_out(ib.end);
        lemma_scopes_reach(s2.func, s2.func, s2.scopes, s2.pos(), s2.func.pos_of(ib.end));
    }
}

impl Builder {
    /// Start of a conditional, after the condition.
    pub fn if_head(&mut self, cv: ValueId) -> (ib: IfBlocks)
        requires
            old(self)@.wf(),
            old(self)@.func.is_int(cv),
            old(self)@.sees(cv),
        ensures
            final(self)@.wf(),
            final(self)@.after(old(self)@),
            final(self)@.func.extends(old(self)@.func),
            (final(self)@, ib) == if_head(old(self)@, cv),
            final(self)@.scopes == old(self)@.scopes.push(Map::empty()),
            ib.ok_in(final(self)@),
            ib.end.0 >= old(self)@.func.bbs.len(),
            final(self)@.bb == ib.then_bb,
    {
        let ghost s0 = self@;
        let then_bb = self.fresh_block(BlockTag::If);
        let else_bb = self.fresh_block(BlockTag::Else);
        let end = self.fresh_block(BlockTag::IfEnd);
        self.lay_out(then_bb);
        self.lay_out(else_bb);
        let ghost s3 = self@;
        let ib = IfBlocks { then_bb, else_bb, end };
        proof {
            s3.lemma_after_sees(s0, cv);
            lemma_scopes_reach(s3.func, s3.func, s3.scopes, s3.pos(), s3.func.pos_of(then_bb) - 1);
        }
        self.emit(ValueKind::Branch(cv, then_bb, else_bb));
        proof {
            let s4 = self@;
            ib.lemma_stays(s3, s4);
            lemma_scopes_reach(
                s4.func,
                s4.func,
                s4.scopes,
                s4.func.pos_of(then_bb) - 1,
                s4.func.pos_of(then_bb),
            );
        }
        self.move_to(then_bb);
        proof {
            lemma_scopes_nest(self@.func, self@.scopes, self@.func.pos_of(then_bb) - 1);
        }
        self.push_scope();
        ib
    }

    /// End of an arm: a jump to `end`, unless the cursor's block ends in a
    /// terminator already.
    pub fn close_arm(&mut self, end: BlockId) -> (joined: bool)
        requires
            old(self)@.wf(),
            old(self)@.func.has_block(end),
        ensures
            final(self)@.wf(),
            final(self)@.after(old(self)@),
            final(self)@.func.extends(old(self)@.func),
            (final(self)@, joined) == close_arm(old(self)@, end),
            final(self)@.scopes == old(self)@.scopes,
            final(self)@.func.terminated(final(self)@.bb),
    {
        if self.func.is_terminated(self.bb) {
            false
        } else {
            self.emit(ValueKind::Jump(end));
            true
        }
    }

    /// Between the arms of a conditional.
    pub fn if_mid(&mut self, ib: IfBlocks) -> (joined: bool)
        requires
            old(self)@.wf(),
            ib.ok_in(old(self)@),
        ensures
            final(self)@.wf(),
            final(self)@.func.extends(old(self)@.func),
            (final(self)@, joined) == if_mid(old(self)@, ib),
            ib.ok_in(final(self)@),
            final(self)@.scopes == old(self)@.pop_scope().scopes,
            final(self)@.bb == ib.else_bb,
    {
        let ghost s0 = self@;
        let joined = self.close_arm(ib.end);
        proof {
            ib.lemma_stays(s0, self@);
            lemma_scopes_nest(self@.func, self@.scopes, self@.func.pos_of(ib.then_bb) - 1);
        }
        self.pop_scope();
        proof {
            let s2 = self@;
            lemma_scopes_reach(
                s2.func,
                s2.func,
                s2.scopes,
                s2.func.pos_of(ib.then_bb) - 1,
                s2.func.pos_of(ib.else_bb),
            );
        }
        self.move_to(ib.else_bb);
        joined
    }

    /// End of a conditional.
    pub fn if_tail(&mut self, ib: IfBlocks, joined: bool)
        requires
            old(self)@.wf(),
            ib.ok_in(old(self)@),
        ensures
            final(self)@.wf(),
            final(self)@.after(old(self)@),
            final(self)@ == if_tail(old(self)@, ib, joined),
            final(self)@.scopes == old(self)@.scopes,
            forall|base: FuncModel|
                old(self)@.func.extends(base) && ib.end.0 >= base.bbs.len() ==> (
                #[trigger] final(self)@.func.extends(base)),
    {
        let joined_else = self.close_arm(ib.end);
        if joined || joined_else {
            self.lay_out(ib.end);
            proof {
                let s2 = self@;
                lemma_scopes_reach(s2.func, s2.func, s2.scopes, s2.pos(), s2.func.pos_of(ib.end));
            }
            self.move_to(ib.end);
        }
    }

    /// An assignment of the lowered value to a name.
    pub fn assign(&mut self, name: &str, v: ValueId) -> (r: Result<(), BuildError>)
        requires
            old(self)@.wf(),
            old(self)@.func.is_int(v),
            old(self)@.sees(v),
        ensures
            match r {
                Ok(_) => lower_assign(old(self)@, name@, v) == Ok::<_, BuildError>(final(self)@)
                    && stmt_step(old(self)@, final(self)@),
                Err(err) => lower_assign(old(self)@, name@, v) == Err::<BuilderModel, _>(err),
            },
    {
        let found = match self.vm.get(name) {
            None => None,
            Some(d) => Some(*d),
        };
        match found {
            None => Err(BuildError::UndefinedSymbol),
            Some(vm::Decl::Const(_)) => Err(BuildError::AssignmentToConstant),
            Some(vm::Decl::Var(p)) => {
                proof {
                    lemma_get_in_scope(self@, name@);
                }
                self.emit(ValueKind::Store(v, p));
                Ok(())
            },
        }
    }

    /// Binds a name in the innermost scope, unless that scope binds it
    /// already.
    pub fn declare(&mut self, name: &str, decl: vm::Decl) -> (r: Result<(), BuildError>)
        requires
            old(self)@.wf(),
            old(self)@.scopes.len() > 0,
            decl matches vm::Decl::Var(p) ==> old(self)@.func.is_slot(p) && old(self)@.sees(p),
        ensures
            match r {
                Ok(_) => declare(old(self)@, name@, decl) == Ok::<_, BuildError>(final(self)@)
                    && item_step(old(self)@, final(self)@) && final(self)@.func == old(self)@.func,
                Err(err) => declare(old(self)@, name@, decl) == Err::<BuilderModel, _>(err),
            },
    {
        proof {
            lemma_scopes_bind(self@.func, self@.scopes, self@.pos(), name@, decl);
        }
        let r = match decl {
            vm::Decl::Const(c) => self.vm.insert_const(name, c),
            vm::Decl::Var(p) => self.vm.insert_var(name, p),
        };
        proof {
            if r is Ok {
                assert(self@.scopes.drop_last() =~= old(self)@.scopes.drop_last());
            }
        }
        r
    }
}

/// What holds of the builder after a block item: it is well-formed, the
/// function has grown, and only the innermost scope may have new bindings.
pub open spec fn item_step(old: BuilderModel, new: BuilderModel) -> bool {
    &&& new.wf()
    &&& new.after(old)
    &&& new.func.extends(old.func)
    &&& new.scopes.len() == old.scopes.len()
    &&& new.scopes.drop_last() == old.scopes.drop_last()
}

/// What holds of the builder after a statement: it is well-formed, the
/// function has grown, and the names in scope are those of before.
pub open spec fn stmt_step(old: BuilderModel, new: BuilderModel) -> bool {
    &&& new.wf()
    &&& new.after(old)
    &&& new.func.extends(old.func)
    &&& new.scopes == old.scopes
}

impl ConstDef {
    /// Evaluates the initializer and binds the name to its value.
    pub fn build(&self, b: &mut Builder) -> (r: Result<(), BuildError>)
        requires
            old(b)@.wf(),
            old(b)@.scopes.len() > 0,
        ensures
            match r {
                Ok(_) => lower_const_def(old(b)@, *self) == Ok::<_, BuildError>(final(b)@)
                    && item_step(old(b)@, final(b)@),
                Err(err) => lower_const_def(old(b)@, *self) == Err::<BuilderModel, _>(err),
            },
    {
        match self.value.calc(&b.vm) {
            Err(err) => Err(err),
            Ok(c) => b.declare(self.ident.as_str(), vm::Decl::Const(c)),
        }
    }
}

impl VarDef {
    /// Reserves the slot, lowers the initializer, binds the name and stores
    /// the initializer's value.
    pub fn build(&self, b: &mut Builder) -> (r: Result<(), BuildError>)
        requires
            old(b)@.wf(),
            old(b)@.scopes.len() > 0,
        ensures
            match r {
                Ok(_) => lower_var_def(old(b)@, *self) == Ok::<_, BuildError>(final(b)@)
                    && item_step(old(b)@, final(b)@),
                Err(err) => lower_var_def(old(b)@, *self) == Err::<BuilderModel, _>(err),
            },
    {
        match self {
            VarDef::Ident(name) => {
                let p = b.emit(ValueKind::Alloc);
                let ghost s1 = b@;
                let r = b.declare(name.as_str(), vm::Decl::Var(p));
                r
            },
            VarDef::InitVal(name, e) => {
                let p = b.emit(ValueKind::Alloc);
                let ghost s1 = b@;
                match e.build(b) {
                    Err(err) => Err(err),
                    Ok(v) => {
                        let ghost s2 = b@;
                        proof {
                            s2.lemma_after_sees(s1, p);
                        }
                        match b.declare(name.as_str(), vm::Decl::Var(p)) {
                            Err(err) => Err(err),
                            Ok(_) => {
                                b.emit(ValueKind::Store(v, p));
                                Ok(())
                            },
                        }
                    },
                }
            },
        }
    }
}

impl ConstDecl {
    /// Lowers the definitions in order.
    pub fn build(&self, b: &mut Builder) -> (r: Result<(), BuildError>)
        requires
            old(b)@.wf(),
            old(b)@.scopes.len() > 0,
        ensures
            match r {
                Ok(_) => lower_const_defs(old(b)@, self.defs@, 0) == Ok::<_, BuildError>(final(b)@)
                    && item_step(old(b)@, final(b)@),
                Err(err) => lower_const_defs(old(b)@, self.defs@, 0) == Err::<BuilderModel, _>(
                    err,
                ),
            },
    {
        let ghost s0 = b@;
        let mut i: usize = 0;
        while i < self.defs.len()
            invariant
                i <= self.defs.len(),
                s0 == old(b)@,
                s0.scopes.len() > 0,
                item_step(s0, b@),
                lower_const_defs(s0, self.defs@, 0) == lower_const_defs(b@, self.defs@, i as int),
            decreases self.defs.len() - i,
        {
            match self.defs[i].build(b) {
                Err(err) => {
                    return Err(err);
                },
                Ok(_) => {},
            }
            i += 1;
        }
        Ok(())
    }
}

impl VarDecl {
    /// Lowers the definitions in order.
    pub fn build(&self, b: &mut Builder) -> (r: Result<(), BuildError>)
        requires
            old(b)@.wf(),
            old(b)@.scopes.len() > 0,
        ensures
            match r {
                Ok(_) => lower_var_defs(old(b)@, self.defs@, 0) == Ok::<_, BuildError>(final(b)@)
                    && item_step(old(b)@, final(b)@),
                Err(err) => lower_var_defs(old(b)@, self.defs@, 0) == Err::<BuilderModel, _>(err),
            },
    {
        let ghost s0 = b@;
        let mut i: usize = 0;
        while i < self.defs.len()
            invariant
                i <= self.defs.len(),
                s0 == old(b)@,
                s0.scopes.len() > 0,
                item_step(s0, b@),
                lower_var_defs(s0, self.defs@, 0) == lower_var_defs(b@, self.defs@, i as int),
            decreases self.defs.len() - i,
        {
            match self.defs[i].build(b) {
                Err(err) => {
                    return Err(err);
                },
                Ok(_) => {},
            }
            i += 1;
        }
        Ok(())
    }
}

impl Decl {
    /// Lowers a declaration statement.
    pub fn build(&self, b: &mut Builder) -> (r: Result<(), BuildError>)
        requires
            old(b)@.wf(),
            old(b)@.scopes.len() > 0,
        ensures
            match r {
                Ok(_) => lower_decl(old(b)@, *self) == Ok::<_, BuildError>(final(b)@)
                    && item_step(old(b)@, final(b)@),
                Err(err) => lower_decl(old(b)@, *self) == Err::<BuilderModel, _>(err),
            },
    {
        match self {
            Decl::Const(decl) => decl.build(b),
            Decl::Var(decl) => decl.build(b),
        }
    }
}

impl Stmt {
    /// Lowers the statement at the cursor. The names in scope are those of
    /// before: what an arm or a block declares is gone at its end.
    pub fn build(&self, b: &mut Builder) -> (r: Result<(), BuildError>)
        requires
            old(b)@.wf(),
        ensures
            match r {
                Ok(_) => lower_stmt(old(b)@, *self) == Ok::<_, BuildError>(final(b)@)
                    && stmt_step(old(b)@, final(b)@),
                Err(err) => lower_stmt(old(b)@, *self) == Err::<BuilderModel, _>(err),
            },
        decreases self, 1nat,
    {
        match self {
            Stmt::Assign(name, e) => match e.build(b) {
                Err(err) => Err(err),
                Ok(v) => {
                    let ghost s1 = b@;
                    let r = b.assign(name.as_str(), v);
                    r
                },
            },
            Stmt::Exp(_) => Ok(()),
            Stmt::Block(block) => block.build(b),
            Stmt::If(_, _, _) => self.build_if(b),
            Stmt::Ret(None) => Ok(()),
            Stmt::Ret(Some(e)) => match e.build(b) {
                Err(err) => Err(err),
                Ok(v) => {
                    let ghost s1 = b@;
                    b.emit(ValueKind::Return(Some(v)));
                    Ok(())
                },
            },
        }
    }

    /// Lowers a conditional.
    fn build_if(&self, b: &mut Builder) -> (r: Result<(), BuildError>)
        requires
            old(b)@.wf(),
            self is If,
        ensures
            match r {
                Ok(_) => lower_stmt(old(b)@, *self) == Ok::<_, BuildError>(final(b)@)
                    && stmt_step(old(b)@, final(b)@),
                Err(err) => lower_stmt(old(b)@, *self) == Err::<BuilderModel, _>(err),
            },
        decreases self, 0nat,
    {
        let ghost s0 = b@;
        match self {
            Stmt::If(c, t, f) => {
                let cv = match c.build(b) {
                    Err(err) => {
                        return Err(err);
                    },
                    Ok(cv) => cv,
                };
                let ib = b.if_head(cv);
                let ghost s2 = b@;
                match t.build(b) {
                    Err(err) => {
                        return Err(err);
                    },
                    Ok(_) => {},
                }
                let ghost s3 = b@;
                proof {
                    ib.lemma_stays(s2, s3);
                }
                let joined = b.if_mid(ib);
                let ghost s4 = b@;
                proof {
                    assert(s4.scopes =~= s0.scopes);
                }
                match f {
                    None => {},
                    Some(fs) => {
                        b.push_scope();
                        match fs.build(b) {
                            Err(err) => {
                                return Err(err);
                            },
                            Ok(_) => {},
                        }
                        b.pop_scope();
                        proof {
                            let s7 = b@;
                        }
                    },
                }
                let ghost s7 = b@;
                proof {
                    ib.lemma_stays(s4, s7);
                }
                b.if_tail(ib, joined);
                Ok(())
            },
            _ => unreached(),
        }
    }
}

impl BlockItem {
    /// Lowers an item of a block.
    pub fn build(&self, b: &mut Builder) -> (r: Result<(), BuildError>)
        requires
            old(b)@.wf(),
            old(b)@.scopes.len() > 0,
        ensures
            match r {
                Ok(_) => lower_item(old(b)@, *self) == Ok::<_, BuildError>(final(b)@)
                    && item_step(old(b)@, final(b)@),
                Err(err) => lower_item(old(b)@, *self) == Err::<BuilderModel, _>(err),
            },
        decreases self, 2nat,
    {
        match self {
            BlockItem::Decl(decl) => decl.build(b),
            BlockItem::Stmt(stmt) => stmt.build(b),
        }
    }
}

impl Block {
    /// Lowers the items of the block, in a scope of their own.
    pub fn build(&self, b: &mut Builder) -> (r: Result<(), BuildError>)
        requires
            old(b)@.wf(),
        ensures
            match r {
                Ok(_) => lower_block(old(b)@, *self) == Ok::<_, BuildError>(final(b)@)
                    && stmt_step(old(b)@, final(b)@),
                Err(err) => lower_block(old(b)@, *self) == Err::<BuilderModel, _>(err),
            },
        decreases self, 1nat,
    {
        let ghost s = b@;
        b.push_scope();
        let ghost s0 = b@;
        match self.build_items(b) {
            Err(err) => Err(err),
            Ok(_) => {
                b.pop_scope();
                proof {
                    assert(s0.scopes.drop_last() =~= s.scopes);
                }
                Ok(())
            },
        }
    }

    /// Lowers the items of the block in order, in the scope that is open.
    pub fn build_items(&self, b: &mut Builder) -> (r: Result<(), BuildError>)
        requires
            old(b)@.wf(),
            old(b)@.scopes.len() > 0,
        ensures
            match r {
                Ok(_) => lower_items(old(b)@, self.items@, 0) == Ok::<_, BuildError>(final(b)@)
                    && item_step(old(b)@, final(b)@),
                Err(err) => lower_items(old(b)@, self.items@, 0) == Err::<BuilderModel, _>(err),
            },
        decreases self, 0nat,
    {
        let ghost s0 = b@;
        let mut i: usize = 0;
        while i < self.items.len()
            invariant
                i <= self.items.len(),
                s0 == old(b)@,
                s0.scopes.len() > 0,
                item_step(s0, b@),
                lower_items(s0, self.items@, 0) == lower_items(b@, self.items@, i as int),
            decreases self.items.len() - i,
        {
            match self.items[i].build(b) {
                Err(err) => {
                    return Err(err);
                },
                Ok(_) => {},
            }
            i += 1;
        }
        Ok(())
    }
}

impl CompUnit {
    /// Lowers the compilation unit: one function, whose body starts in its
    /// entry block.
    pub fn build(&self) -> (r: Result<Module, BuildError>)
        ensures
            match r {
                Ok(p) => p.funcs.len() == 1 && lower_unit(*self) == Ok::<_, BuildError>(
                    p.funcs[0]@,
                ) && p.wf() && labelled(p.funcs[0]@) && p.funcs[0]@.name == self.func_def.ident@,
                Err(err) => lower_unit(*self) == Err::<FuncModel, _>(err),
            },
    {
        let mut b = Builder::new(self.func_def.ident.clone());
        match self.func_def.block.build(&mut b) {
            Err(err) => Err(err),
            Ok(_) => {
                let mut funcs = Vec::new();
                funcs.push(b.func);
                Ok(Module { funcs })
            },
        }
    }
}

} // verus!
