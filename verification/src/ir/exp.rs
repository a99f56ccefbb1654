//! Lowering of expressions.
//!
//! `lower_exp` says what an expression adds to the function under
//! construction, or the first error met. `Exp::build` does it.

use vstd::prelude::*;
use vstd::pervasive::unreached;
use crate::error::BuildError;
use crate::ir::builder::{
    lemma_scopes_nest,
    lemma_scopes_reach,
    lemma_scopes_var,
    scopes_reach,
    Builder,
    BuilderModel,
};
use crate::ir::label::BlockTag;
use crate::ir::entities::{BlockId, BinaryOp, ValueId, ValueKind};
use crate::ir::structs::{BinOp, Exp, UnaryOp};
use crate::ir::vm::{scopes_get, Decl};

verus! {

/// The operator of the representation for an infix operator of the source.
pub open spec fn ir_op(op: BinOp) -> BinaryOp {
    match op {
        BinOp::Mul => BinaryOp::Mul,
        BinOp::Div => BinaryOp::Div,
        BinOp::Mod => BinaryOp::Mod,
        BinOp::Add => BinaryOp::Add,
        BinOp::Sub => BinaryOp::Sub,
        BinOp::Lt => BinaryOp::Lt,
        BinOp::Le => BinaryOp::Le,
        BinOp::Gt => BinaryOp::Gt,
        BinOp::Ge => BinaryOp::Ge,
        BinOp::Eq => BinaryOp::Eq,
        BinOp::Ne => BinaryOp::NotEq,
    }
}

/// The operator of the representation for an infix operator of the source.
pub fn binary_op(op: BinOp) -> (r: BinaryOp)
    ensures
        r == ir_op(op),
{
    match op {
        BinOp::Mul => BinaryOp::Mul,
        BinOp::Div => BinaryOp::Div,
        BinOp::Mod => BinaryOp::Mod,
        BinOp::Add => BinaryOp::Add,
        BinOp::Sub => BinaryOp::Sub,
        BinOp::Lt => BinaryOp::Lt,
        BinOp::Le => BinaryOp::Le,
        BinOp::Gt => BinaryOp::Gt,
        BinOp::Ge => BinaryOp::Ge,
        BinOp::Eq => BinaryOp::Eq,
        BinOp::Ne => BinaryOp::NotEq,
    }
}

/// The slot and the two blocks of a short-circuit operator.
#[derive(Clone, Copy, Debug)]
pub struct ShortCircuit {
    /// Slot that holds the result.
    pub result: ValueId,
    /// Block that evaluates the right operand.
    pub right: BlockId,
    /// Block in which the two paths meet.
    pub end: BlockId,
}

/// Use of a name: a literal for a constant, a load for a variable.
pub open spec fn lower_lval(s: BuilderModel, name: Seq<char>) -> Result<
    (BuilderModel, ValueId),
    BuildError,
> {
    match scopes_get(s.scopes, name) {
        None => Err(BuildError::UndefinedSymbol),
        Some(Decl::Const(c)) => Ok(s.constant(c)),
        Some(Decl::Var(p)) => Ok(s.emit(ValueKind::Load(p))),
    }
}

/// A prefix operator on the lowered operand `v`: nothing for plus, zero minus
/// the operand for minus, the comparison of zero with the operand for not.
pub open spec fn lower_unary(s: BuilderModel, op: UnaryOp, v: ValueId) -> (BuilderModel, ValueId) {
    match op {
        UnaryOp::Plus => (s, v),
        UnaryOp::Minus => {
            let (s1, zero) = s.constant(0);
            s1.emit(ValueKind::Binary(BinaryOp::Sub, zero, v))
        },
        UnaryOp::Not => {
            let (s1, zero) = s.constant(0);
            s1.emit(ValueKind::Binary(BinaryOp::Eq, zero, v))
        },
    }
}

/// Start of a short-circuit operator: the result slot is reserved at the
/// cursor, and the block of the right operand and the block where the paths
/// meet are created and laid out.
pub open spec fn short_head(s: BuilderModel, right: BlockTag, end: BlockTag) -> (
    BuilderModel,
    ShortCircuit,
) {
    let (s1, result) = s.emit(ValueKind::Alloc);
    let (s2, r_bb) = s1.fresh_block(right);
    let (s3, end_bb) = s2.fresh_block(end);
    (s3.lay_out(r_bb).lay_out(end_bb), ShortCircuit { result, right: r_bb, end: end_bb })
}

/// Middle of a logical or, after the left operand `lv`: it is stored, and
/// where it is not zero the right operand is skipped. The cursor moves to the
/// block of the right operand.
pub open spec fn or_mid(s: BuilderModel, sc: ShortCircuit, lv: ValueId) -> BuilderModel {
    let (s1, _) = s.emit(ValueKind::Store(lv, sc.result));
    let (s2, _) = s1.emit(ValueKind::Branch(lv, sc.end, sc.right));
    s2.at(sc.right)
}

/// Middle of a logical and, after the left operand `lv`: it is stored, and
/// where it is zero the right operand is skipped. The cursor moves to the
/// block of the right operand. Also returns the zero that was compared with.
pub open spec fn and_mid(s: BuilderModel, sc: ShortCircuit, lv: ValueId) -> (BuilderModel, ValueId) {
    let (s1, _) = s.emit(ValueKind::Store(lv, sc.result));
    let (s2, zero) = s1.constant(0);
    let (s3, is_zero) = s2.emit(ValueKind::Binary(BinaryOp::Eq, lv, zero));
    let (s4, _) = s3.emit(ValueKind::Branch(is_zero, sc.end, sc.right));
    (s4.at(sc.right), zero)
}

/// End of the right operand `rv` of a short-circuit operator: it is stored
/// and control goes to the block where the paths meet. The cursor moves there.
pub open spec fn short_join(s: BuilderModel, sc: ShortCircuit, rv: ValueId) -> BuilderModel {
    let (s1, _) = s.emit(ValueKind::Store(rv, sc.result));
    let (s2, _) = s1.emit(ValueKind::Jump(sc.end));
    s2.at(sc.end)
}

/// The result of a short-circuit operator: what the slot holds, made zero or
/// one by comparing it with `zero`.
pub open spec fn short_result(s: BuilderModel, sc: ShortCircuit, zero: ValueId) -> (
    BuilderModel,
    ValueId,
) {
    let (s1, loaded) = s.emit(ValueKind::Load(sc.result));
    s1.emit(ValueKind::Binary(BinaryOp::NotEq, loaded, zero))
}

/// End of a logical or.
pub open spec fn or_tail(s: BuilderModel, sc: ShortCircuit, rv: ValueId) -> (BuilderModel, ValueId) {
    let s1 = short_join(s, sc, rv);
    let (s2, loaded) = s1.emit(ValueKind::Load(sc.result));
    let (s3, zero) = s2.constant(0);
    s3.emit(ValueKind::Binary(BinaryOp::NotEq, loaded, zero))
}

/// End of a logical and.
pub open spec fn and_tail(s: BuilderModel, sc: ShortCircuit, zero: ValueId, rv: ValueId) -> (
    BuilderModel,
    ValueId,
) {
    short_result(short_join(s, sc, rv), sc, zero)
}

/// What lowering an expression adds, and the value that holds its result.
#[verifier::opaque]
pub open spec fn lower_exp(s: BuilderModel, e: Exp) -> Result<(BuilderModel, ValueId), BuildError>
    decreases e,
{
    match e {
        Exp::Number(n) => Ok(s.constant(n)),
        Exp::LVal(name) => lower_lval(s, name@),
        Exp::Unary(op, a) => match lower_exp(s, *a) {
            Err(err) => Err(err),
            Ok((s1, v)) => Ok(lower_unary(s1, op, v)),
        },
        Exp::Binary(l, op, r) => match lower_exp(s, *l) {
            Err(err) => Err(err),
            Ok((s1, lv)) => match lower_exp(s1, *r) {
                Err(err) => Err(err),
                Ok((s2, rv)) => Ok(s2.emit(ValueKind::Binary(ir_op(op), lv, rv))),
            },
        },
        Exp::LOr(l, r) => {
            let (s0, sc) = short_head(s, BlockTag::OrR, BlockTag::OrEnd);
            match lower_exp(s0, *l) {
                Err(err) => Err(err),
                Ok((s1, lv)) => match lower_exp(or_mid(s1, sc, lv), *r) {
                    Err(err) => Err(err),
                    Ok((s2, rv)) => Ok(or_tail(s2, sc, rv)),
                },
            }
        },
        Exp::LAnd(l, r) => {
            let (s0, sc) = short_head(s, BlockTag::AndR, BlockTag::AndEnd);
            match lower_exp(s0, *l) {
                Err(err) => Err(err),
                Ok((s1, lv)) => {
                    let (s2, zero) = and_mid(s1, sc, lv);
                    match lower_exp(s2, *r) {
                        Err(err) => Err(err),
                        Ok((s3, rv)) => Ok(and_tail(s3, sc, zero, rv)),
                    }
                },
            }
        },
    }
}

impl ShortCircuit {
    /// The slot and the blocks exist and the blocks are laid out, the block
    /// of the right operand before the other; the slot and the variables in
    /// scope can be operands in both.
    pub open spec fn ok_in(self, s: BuilderModel) -> bool {
        &&& s.func.is_slot(self.result)
        &&& s.func.has_block(self.right)
        &&& s.func.has_block(self.end)
        &&& s.func.layout.contains(self.right)
        &&& s.func.layout.contains(self.end)
        &&& s.func.pos_of(self.right) < s.func.pos_of(self.end)
        &&& s.func.reaches(self.result, s.func.pos_of(self.right) - 1)
        &&& scopes_reach(s.func, s.scopes, s.func.pos_of(self.right) - 1)
    }

    /// What holds of the slot and the blocks holds in every later state with
    /// the same names in scope.
    pub proof fn lemma_stays(self, old: BuilderModel, new: BuilderModel)
        requires
            old.wf(),
            new.wf(),
            new.func.grows(old.func),
            new.scopes == old.scopes,
            self.ok_in(old),
        ensures
            self.ok_in(new),
            new.func.pos_of(self.right) == old.func.pos_of(self.right),
            new.func.pos_of(self.end) == old.func.pos_of(self.end),
    {
        let floor = old.func.pos_of(self.right) - 1;
        new.func.lemma_reaches_stays(old.func, self.result, floor);
        lemma_scopes_reach(new.func, old.func, old.scopes, floor, floor);
    }

    /// A builder stays well-formed when the cursor moves to one of the blocks,
    /// and the slot can be used there.
    pub proof fn lemma_enter(self, s: BuilderModel, bb: BlockId)
        requires
            s.wf(),
            self.ok_in(s),
            bb == self.right || bb == self.end,
        ensures
            s.at(bb).wf(),
            s.at(bb).sees(self.result),
            self.ok_in(s.at(bb)),
    {
        let floor = s.func.pos_of(self.right) - 1;
        let p = s.func.pos_of(bb);
        s.func.lemma_reaches_later(self.result, floor, p);
        lemma_scopes_reach(s.func, s.func, s.scopes, floor, p);
    }
}

impl Builder {
    /// Lowers the use of a name: a literal for a constant, a load for a
    /// variable.
    pub fn build_lval(&mut self, name: &str) -> (r: Result<ValueId, BuildError>)
        requires
            old(self)@.wf(),
        ensures
            final(self)@.wf(),
            final(self)@.after(old(self)@),
            final(self)@.func.extends(old(self)@.func),
            final(self)@.scopes == old(self)@.scopes,
            match r {
                Ok(v) => lower_lval(old(self)@, name@) == Ok::<_, BuildError>((final(self)@, v))
                    && final(self)@.func.is_int(v) && final(self)@.sees(v),
                Err(err) => lower_lval(old(self)@, name@) == Err::<(BuilderModel, ValueId), _>(err),
            },
    {
        let found = match self.vm.get(name) {
            None => None,
            Some(d) => Some(*d),
        };
        match found {
            None => Err(BuildError::UndefinedSymbol),
            Some(Decl::Const(c)) => Ok(self.constant(c)),
            Some(Decl::Var(p)) => {
                proof {
                    lemma_get_in_scope(self@, name@);
                }
                Ok(self.emit(ValueKind::Load(p)))
            },
        }
    }

    /// A prefix operator on the lowered operand.
    pub fn build_unary(&mut self, op: UnaryOp, v: ValueId) -> (r: ValueId)
        requires
            old(self)@.wf(),
            old(self)@.func.is_int(v),
            old(self)@.sees(v),
        ensures
            final(self)@.wf(),
            final(self)@.after(old(self)@),
            final(self)@.func.extends(old(self)@.func),
            (final(self)@, r) == lower_unary(old(self)@, op, v),
            final(self)@.scopes == old(self)@.scopes,
            final(self)@.func.is_int(r),
            final(self)@.sees(r),
    {
        match op {
            UnaryOp::Plus => v,
            UnaryOp::Minus => {
                let zero = self.constant(0);
                proof {
                    self@.lemma_after_sees(old(self)@, v);
                }
                let ghost mid = self@;
                let r = self.emit(ValueKind::Binary(BinaryOp::Sub, zero, v));
                r
            },
            UnaryOp::Not => {
                let zero = self.constant(0);
                proof {
                    self@.lemma_after_sees(old(self)@, v);
                }
                let ghost mid = self@;
                let r = self.emit(ValueKind::Binary(BinaryOp::Eq, zero, v));
                r
            },
        }
    }

    /// Start of a short-circuit operator.
    pub fn short_head(&mut self, right: BlockTag, end: BlockTag) -> (sc: ShortCircuit)
        requires
            old(self)@.wf(),
        ensures
            final(self)@.wf(),
            final(self)@.after(old(self)@),
            final(self)@.func.extends(old(self)@.func),
            (final(self)@, sc) == short_head(old(self)@, right, end),
            final(self)@.scopes == old(self)@.scopes,
            sc.ok_in(final(self)@),
            final(self)@.sees(sc.result),
            final(self)@.pos() < final(self)@.func.pos_of(sc.right),
    {
        let result = self.emit(ValueKind::Alloc);
        let ghost s1 = self@;
        let r_bb = self.fresh_block(right);
        let end_bb = self.fresh_block(end);
        self.lay_out(r_bb);
        self.lay_out(end_bb);
        proof {
            let s5 = self@;
            let floor = s5.func.pos_of(r_bb) - 1;
            s5.func.lemma_reaches_stays(s1.func, result, s1.pos());
            s5.func.lemma_reaches_later(result, s1.pos(), floor);
            lemma_scopes_reach(s5.func, s1.func, s1.scopes, s1.pos(), floor);
        }
        ShortCircuit { result, right: r_bb, end: end_bb }
    }

    /// Middle of a logical or, after the left operand.
    pub fn or_mid(&mut self, sc: ShortCircuit, lv: ValueId)
        requires
            old(self)@.wf(),
            old(self)@.func.is_int(lv),
            old(self)@.sees(lv),
            old(self)@.sees(sc.result),
            sc.ok_in(old(self)@),
        ensures
            final(self)@.wf(),
            final(self)@.func.extends(old(self)@.func),
            final(self)@ == or_mid(old(self)@, sc, lv),
            final(self)@.scopes == old(self)@.scopes,
            sc.ok_in(final(self)@),
            final(self)@.bb == sc.right,
            final(self)@.sees(sc.result),
    {
        let ghost s0 = self@;
        self.emit(ValueKind::Store(lv, sc.result));
        proof {
            self@.lemma_after_sees(s0, lv);
        }
        self.emit(ValueKind::Branch(lv, sc.end, sc.right));
        proof {
            sc.lemma_stays(s0, self@);
            sc.lemma_enter(self@, sc.right);
        }
        self.move_to(sc.right);
    }

    /// Middle of a logical and, after the left operand.
    pub fn and_mid(&mut self, sc: ShortCircuit, lv: ValueId) -> (zero: ValueId)
        requires
            old(self)@.wf(),
            old(self)@.func.is_int(lv),
            old(self)@.sees(lv),
            old(self)@.sees(sc.result),
            sc.ok_in(old(self)@),
        ensures
            final(self)@.wf(),
            final(self)@.func.extends(old(self)@.func),
            (final(self)@, zero) == and_mid(old(self)@, sc, lv),
            final(self)@.scopes == old(self)@.scopes,
            sc.ok_in(final(self)@),
            final(self)@.bb == sc.right,
            final(self)@.sees(sc.result),
            final(self)@.func.is_int(zero),
            final(self)@.func.kind(zero) is Integer,
    {
        let ghost s0 = self@;
        self.emit(ValueKind::Store(lv, sc.result));
        let ghost s1 = self@;
        let zero = self.constant(0);
        let ghost s2 = self@;
        proof {
            s1.lemma_after_sees(s0, lv);
            s2.lemma_after_sees(s1, lv);
        }
        let is_zero = self.emit(ValueKind::Binary(BinaryOp::Eq, lv, zero));
        self.emit(ValueKind::Branch(is_zero, sc.end, sc.right));
        proof {
            let s4 = self@;
            sc.lemma_stays(s0, s4);
            sc.lemma_enter(s4, sc.right);
        }
        self.move_to(sc.right);
        zero
    }

    /// End of the right operand of a short-circuit operator.
    pub fn short_join(&mut self, sc: ShortCircuit, rv: ValueId)
        requires
            old(self)@.wf(),
            old(self)@.func.is_int(rv),
            old(self)@.sees(rv),
            old(self)@.sees(sc.result),
            sc.ok_in(old(self)@),
        ensures
            final(self)@.wf(),
            final(self)@.func.extends(old(self)@.func),
            final(self)@ == short_join(old(self)@, sc, rv),
            final(self)@.scopes == old(self)@.scopes,
            sc.ok_in(final(self)@),
            final(self)@.bb == sc.end,
            final(self)@.sees(sc.result),
            final(self)@.func.layout.contains(sc.end),
    {
        let ghost s0 = self@;
        self.emit(ValueKind::Store(rv, sc.result));
        self.emit(ValueKind::Jump(sc.end));
        proof {
            sc.lemma_stays(s0, self@);
            sc.lemma_enter(self@, sc.end);
        }
        self.move_to(sc.end);
    }

    /// End of a logical or.
    pub fn or_tail(&mut self, sc: ShortCircuit, rv: ValueId) -> (r: ValueId)
        requires
            old(self)@.wf(),
            old(self)@.func.is_int(rv),
            old(self)@.sees(rv),
            old(self)@.sees(sc.result),
            sc.ok_in(old(self)@),
        ensures
            final(self)@.wf(),
            final(self)@.func.extends(old(self)@.func),
            (final(self)@, r) == or_tail(old(self)@, sc, rv),
            final(self)@.scopes == old(self)@.scopes,
            final(self)@.func.is_int(r),
            final(self)@.sees(r),
            final(self)@.pos() >= final(self)@.func.pos_of(sc.end),
            final(self)@.func.pos_of(sc.end) == old(self)@.func.pos_of(sc.end),
    {
        self.short_join(sc, rv);
        let loaded = self.emit(ValueKind::Load(sc.result));
        let ghost s2 = self@;
        let zero = self.constant(0);
        let ghost s3 = self@;
        proof {
            s3.lemma_after_sees(s2, loaded);
        }
        let r = self.emit(ValueKind::Binary(BinaryOp::NotEq, loaded, zero));
        r
    }

    /// End of a logical and.
    pub fn and_tail(&mut self, sc: ShortCircuit, zero: ValueId, rv: ValueId) -> (r: ValueId)
        requires
            old(self)@.wf(),
            old(self)@.func.is_int(rv),
            old(self)@.sees(rv),
            old(self)@.sees(sc.result),
            old(self)@.func.is_int(zero),
            old(self)@.func.kind(zero) is Integer,
            sc.ok_in(old(self)@),
        ensures
            final(self)@.wf(),
            final(self)@.func.extends(old(self)@.func),
            (final(self)@, r) == and_tail(old(self)@, sc, zero, rv),
            final(self)@.scopes == old(self)@.scopes,
            final(self)@.func.is_int(r),
            final(self)@.sees(r),
            final(self)@.pos() >= final(self)@.func.pos_of(sc.end),
            final(self)@.func.pos_of(sc.end) == old(self)@.func.pos_of(sc.end),
    {
        self.short_join(sc, rv);
        let loaded = self.emit(ValueKind::Load(sc.result));
        let ghost s2 = self@;
        proof {
            s2.func.lemma_literal_reaches(zero, s2.pos());
        }
        let r = self.emit(ValueKind::Binary(BinaryOp::NotEq, loaded, zero));
        r
    }
}

impl Exp {
    /// Lowers the expression at the cursor and returns the value that holds
    /// its result. The next instruction can use the value, and whatever it
    /// could use before.
    pub fn build(&self, b: &mut Builder) -> (r: Result<ValueId, BuildError>)
        requires
            old(b)@.wf(),
        ensures
            final(b)@.wf(),
            final(b)@.after(old(b)@),
            final(b)@.func.extends(old(b)@.func),
            final(b)@.scopes == old(b)@.scopes,
            match r {
                Ok(v) => lower_exp(old(b)@, *self) == Ok::<_, BuildError>((final(b)@, v))
                    && final(b)@.func.is_int(v) && final(b)@.sees(v),
                Err(err) => lower_exp(old(b)@, *self) == Err::<(BuilderModel, ValueId), _>(err),
            },
        decreases self, 1nat,
    {
        reveal_with_fuel(lower_exp, 1);
        match self {
            Exp::Number(n) => Ok(b.constant(*n)),
            Exp::LVal(name) => b.build_lval(name.as_str()),
            Exp::Unary(op, a) => match a.build(b) {
                Err(err) => Err(err),
                Ok(v) => {
                    let r = b.build_unary(*op, v);
                    Ok(r)
                },
            },
            Exp::Binary(_, _, _) => self.build_binary(b),
            Exp::LOr(_, _) => self.build_lor(b),
            Exp::LAnd(_, _) => self.build_land(b),
        }
    }

    /// Lowers an infix operator: left operand, right operand, one instruction.
    fn build_binary(&self, b: &mut Builder) -> (r: Result<ValueId, BuildError>)
        requires
            old(b)@.wf(),
            self is Binary,
        ensures
            final(b)@.wf(),
            final(b)@.after(old(b)@),
            final(b)@.func.extends(old(b)@.func),
            final(b)@.scopes == old(b)@.scopes,
            match r {
                Ok(v) => lower_exp(old(b)@, *self) == Ok::<_, BuildError>((final(b)@, v))
                    && final(b)@.func.is_int(v) && final(b)@.sees(v),
                Err(err) => lower_exp(old(b)@, *self) == Err::<(BuilderModel, ValueId), _>(err),
            },
        decreases self, 0nat,
    {
        reveal_with_fuel(lower_exp, 1);
        match self {
            Exp::Binary(l, op, r) => match l.build(b) {
                Err(err) => Err(err),
                Ok(lv) => {
                    let ghost s1 = b@;
                    match r.build(b) {
                        Err(err) => {
                            Err(err)
                        },
                        Ok(rv) => {
                            let ghost s2 = b@;
                            proof {
                                s2.lemma_after_sees(s1, lv);
                            }
                            let v = b.emit(ValueKind::Binary(binary_op(*op), lv, rv));
                            Ok(v)
                        },
                    }
                },
            },
            _ => unreached(),
        }
    }

    /// Lowers a logical or.
    fn build_lor(&self, b: &mut Builder) -> (r: Result<ValueId, BuildError>)
        requires
            old(b)@.wf(),
            self is LOr,
        ensures
            final(b)@.wf(),
            final(b)@.after(old(b)@),
            final(b)@.func.extends(old(b)@.func),
            final(b)@.scopes == old(b)@.scopes,
            match r {
                Ok(v) => lower_exp(old(b)@, *self) == Ok::<_, BuildError>((final(b)@, v))
                    && final(b)@.func.is_int(v) && final(b)@.sees(v),
                Err(err) => lower_exp(old(b)@, *self) == Err::<(BuilderModel, ValueId), _>(err),
            },
        decreases self, 0nat,
    {
        reveal_with_fuel(lower_exp, 1);
        match self {
            Exp::LOr(l, r) => {
                let sc = b.short_head(BlockTag::OrR, BlockTag::OrEnd);
                let ghost s0 = b@;
                match l.build(b) {
                    Err(err) => {
                        Err(err)
                    },
                    Ok(lv) => {
                        let ghost s1 = b@;
                        proof {
                            sc.lemma_stays(s0, s1);
                            s1.lemma_after_sees(s0, sc.result);
                        }
                        b.or_mid(sc, lv);
                        let ghost s2 = b@;
                        match r.build(b) {
                            Err(err) => {
                                Err(err)
                            },
                            Ok(rv) => {
                                let ghost s3 = b@;
                                proof {
                                    sc.lemma_stays(s2, s3);
                                    s3.lemma_after_sees(s2, sc.result);
                                }
                                let v = b.or_tail(sc, rv);
                                Ok(v)
                            },
                        }
                    },
                }
            },
            _ => unreached(),
        }
    }

    /// Lowers a logical and.
    fn build_land(&self, b: &mut Builder) -> (r: Result<ValueId, BuildError>)
        requires
            old(b)@.wf(),
            self is LAnd,
        ensures
            final(b)@.wf(),
            final(b)@.after(old(b)@),
            final(b)@.func.extends(old(b)@.func),
            final(b)@.scopes == old(b)@.scopes,
            match r {
                Ok(v) => lower_exp(old(b)@, *self) == Ok::<_, BuildError>((final(b)@, v))
                    && final(b)@.func.is_int(v) && final(b)@.sees(v),
                Err(err) => lower_exp(old(b)@, *self) == Err::<(BuilderModel, ValueId), _>(err),
            },
        decreases self, 0nat,
    {
        reveal_with_fuel(lower_exp, 1);
        match self {
            Exp::LAnd(l, r) => {
                let sc = b.short_head(BlockTag::AndR, BlockTag::AndEnd);
                let ghost s0 = b@;
                match l.build(b) {
                    Err(err) => {
                        Err(err)
                    },
                    Ok(lv) => {
                        let ghost s1 = b@;
                        proof {
                            sc.lemma_stays(s0, s1);
                            s1.lemma_after_sees(s0, sc.result);
                        }
                        let zero = b.and_mid(sc, lv);
                        let ghost s2 = b@;
                        match r.build(b) {
                            Err(err) => {
                                Err(err)
                            },
                            Ok(rv) => {
                                let ghost s3 = b@;
                                proof {
                                    sc.lemma_stays(s2, s3);
                                    s3.lemma_after_sees(s2, sc.result);
                                }
                                let v = b.and_tail(sc, zero, rv);
                                Ok(v)
                            },
                        }
                    },
                }
            },
            _ => unreached(),
        }
    }
}

/// A variable that a lookup finds is bound to a slot that the next
/// instruction can use.
pub proof fn lemma_get_in_scope(s: BuilderModel, name: Seq<char>)
    requires
        s.scopes_ok(),
    ensures
        scopes_get(s.scopes, name) matches Some(Decl::Var(p)) ==> s.func.is_slot(p) && s.sees(p),
    decreases s.scopes.len(),
{
    if s.scopes.len() > 0 {
        if s.scopes.last().contains_key(name) {
            if s.scopes.last()[name] is Var {
                lemma_scopes_var(s.func, s.scopes, s.pos(), s.scopes.len() - 1, name);
            }
        } else {
            lemma_scopes_nest(s.func, s.scopes, s.pos());
            lemma_get_in_scope(s.pop_scope(), name);
        }
    }
}

} // verus!
