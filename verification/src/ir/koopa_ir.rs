//! The interface of the `koopa` crate that the export uses.
//!
//! Everything in this file is trusted: the types are those of the crate, the
//! three `koopa_*` functions without a body name what a program of the crate
//! holds, and each function with a body calls one function of the crate and
//! states, without proof, what that function does to the program.

use vstd::prelude::*;
use koopa::ir::builder_traits::{BasicBlockBuilder, LocalInstBuilder, ValueBuilder};
use koopa::ir::BinaryOp as KoopaOp;
use crate::ir::entities::BinaryOp;

verus! {

/// A Koopa IR program. Opaque: its content is named by `koopa_order` and
/// `koopa_content`.
#[verifier::external_type_specification]
#[verifier::external_body]
pub struct ExProgram(koopa::ir::Program);

/// Handle of a function of a Koopa IR program.
#[verifier::external_type_specification]
#[verifier::external_body]
pub struct ExFunction(koopa::ir::Function);

/// Handle of a basic block of a Koopa IR function.
#[verifier::external_type_specification]
#[verifier::external_body]
pub struct ExBasicBlock(koopa::ir::BasicBlock);

/// Handle of a value of a Koopa IR function.
#[verifier::external_type_specification]
#[verifier::external_body]
pub struct ExValue(koopa::ir::Value);

/// A type of Koopa IR.
#[verifier::external_type_specification]
#[verifier::external_body]
pub struct ExType(koopa::ir::Type);

/// What a value of a Koopa IR function is, with Koopa's handles as operands.
pub ghost enum KoopaKind {
    /// Integer literal.
    Integer(i32),
    /// Local memory allocation.
    Alloc,
    /// Load from the source.
    Load(koopa::ir::Value),
    /// Store of the value to the destination.
    Store(koopa::ir::Value, koopa::ir::Value),
    /// Binary operation on the left and the right operand.
    Binary(BinaryOp, koopa::ir::Value, koopa::ir::Value),
    /// Branch on the condition to the true or the false block, without
    /// arguments.
    Branch(koopa::ir::Value, koopa::ir::BasicBlock, koopa::ir::BasicBlock),
    /// Jump to the block, without arguments.
    Jump(koopa::ir::BasicBlock),
    /// Return, with a value or without.
    Return(Option<koopa::ir::Value>),
    /// Any other kind of value.
    Other,
}

/// The type of a value of a Koopa IR function.
pub ghost enum KoopaType {
    /// The 32-bit integer type.
    Int32,
    /// The unit type.
    Unit,
    /// The type of pointers to a 32-bit integer.
    Pointer,
    /// Any other type.
    Other,
}

/// A value of a Koopa IR function: its kind and its type.
pub ghost struct KoopaValue {
    pub kind: KoopaKind,
    pub ty: KoopaType,
}

/// A basic block of the data flow graph of a Koopa IR function: its name, if
/// it has one, and the number of its parameters.
pub ghost struct KoopaBlock {
    pub name: Option<Seq<char>>,
    pub params: nat,
}

/// Content of a function of a Koopa IR program.
pub ghost struct KoopaFunc {
    /// The name, with its sigil.
    pub name: Seq<char>,
    /// The values of the data flow graph.
    pub values: Map<koopa::ir::Value, KoopaValue>,
    /// The basic blocks of the data flow graph.
    pub blocks: Map<koopa::ir::BasicBlock, KoopaBlock>,
    /// The basic blocks of the layout, in order.
    pub layout: Seq<koopa::ir::BasicBlock>,
    /// The instructions of each basic block of the layout, in order.
    pub insts: Map<koopa::ir::BasicBlock, Seq<koopa::ir::Value>>,
}

/// Trusted name: the functions of a Koopa IR program in layout order, as
/// `Program::func_layout` gives them.
pub uninterp spec fn koopa_order(p: koopa::ir::Program) -> Seq<koopa::ir::Function>;

/// Trusted name: what each function of a Koopa IR program holds, as
/// `Program::func` gives it: the function's name, the values and the basic
/// blocks of its data flow graph, and its layout.
pub uninterp spec fn koopa_content(p: koopa::ir::Program) -> Map<koopa::ir::Function, KoopaFunc>;

/// Trusted name: whether a Koopa IR type is the 32-bit integer type, as
/// `Type::is_i32` tells.
pub uninterp spec fn koopa_is_i32(t: koopa::ir::Type) -> bool;

/// Whether a text is a name that Koopa IR accepts for a function or a block:
/// a sigil and at least one more character.
pub open spec fn koopa_name_ok(name: Seq<char>) -> bool {
    name.len() > 1 && (name[0] == '%' || name[0] == '@')
}

impl KoopaFunc {
    /// A function of that name with nothing in it.
    pub open spec fn empty(name: Seq<char>) -> KoopaFunc {
        KoopaFunc {
            name,
            values: Map::empty(),
            blocks: Map::empty(),
            layout: Seq::empty(),
            insts: Map::empty(),
        }
    }

    /// The value exists and its type is the 32-bit integer type.
    pub open spec fn is_int(self, v: koopa::ir::Value) -> bool {
        self.values.contains_key(v) && self.values[v].ty is Int32
    }

    /// The value exists and its type is that of pointers to a 32-bit integer.
    pub open spec fn is_ptr(self, v: koopa::ir::Value) -> bool {
        self.values.contains_key(v) && self.values[v].ty is Pointer
    }

    /// The block exists and has no parameters, so that control can go to it
    /// without arguments.
    pub open spec fn is_target(self, bb: koopa::ir::BasicBlock) -> bool {
        self.blocks.contains_key(bb) && self.blocks[bb].params == 0
    }

    /// The function with one more block in its data flow graph, of that name
    /// and without parameters.
    pub open spec fn with_block(self, bb: koopa::ir::BasicBlock, name: Seq<char>) -> KoopaFunc {
        KoopaFunc {
            blocks: self.blocks.insert(bb, KoopaBlock { name: Some(name), params: 0 }),
            ..self
        }
    }

    /// The function with the block at the end of its layout, empty.
    pub open spec fn with_layout(self, bb: koopa::ir::BasicBlock) -> KoopaFunc {
        KoopaFunc {
            layout: self.layout.push(bb),
            insts: self.insts.insert(bb, Seq::empty()),
            ..self
        }
    }

    /// The function with the value at the end of the block.
    pub open spec fn with_inst(self, bb: koopa::ir::BasicBlock, v: koopa::ir::Value) -> KoopaFunc {
        KoopaFunc { insts: self.insts.insert(bb, self.insts[bb].push(v)), ..self }
    }

    /// The function with one more value.
    pub open spec fn with_value(
        self,
        v: koopa::ir::Value,
        kind: KoopaKind,
        ty: KoopaType,
    ) -> KoopaFunc {
        KoopaFunc { values: self.values.insert(v, KoopaValue { kind, ty }), ..self }
    }
}

/// Whether the program `new` is the program `old` with the content of the
/// function `f` replaced by `content`.
pub open spec fn koopa_updated(
    old: koopa::ir::Program,
    new: koopa::ir::Program,
    f: koopa::ir::Function,
    content: KoopaFunc,
) -> bool {
    &&& koopa_order(new) == koopa_order(old)
    &&& koopa_content(new) == koopa_content(old).insert(f, content)
}

/// Whether `f` is a function of the program.
pub open spec fn koopa_has(p: koopa::ir::Program, f: koopa::ir::Function) -> bool {
    koopa_content(p).contains_key(f)
}

/// Trusted: `Program::new` gives a program without functions.
#[verifier::external_body]
pub(crate) fn new_program() -> (p: koopa::ir::Program)
    ensures
        koopa_order(p).len() == 0,
        koopa_content(p).dom().is_empty(),
{
    koopa::ir::Program::new()
}

/// Trusted: `Type::get_i32` gives the 32-bit integer type.
#[verifier::external_body]
pub(crate) fn int_type() -> (t: koopa::ir::Type)
    ensures
        koopa_is_i32(t),
{
    koopa::ir::Type::get_i32()
}

/// Trusted: `Program::new_func_def`, given a name that it accepts, no
/// parameters and a result type, adds an empty function definition at the end
/// of the program and returns its handle, which no function had before.
#[verifier::external_body]
pub(crate) fn new_func_def(
    p: &mut koopa::ir::Program,
    name: String,
    ret: koopa::ir::Type,
) -> (f: koopa::ir::Function)
    requires
        koopa_name_ok(name@),
    ensures
        !koopa_content(*old(p)).contains_key(f),
        koopa_order(*final(p)) == koopa_order(*old(p)).push(f),
        koopa_content(*final(p)) == koopa_content(*old(p)).insert(f, KoopaFunc::empty(name@)),
{
    p.new_func_def(name, Vec::new(), ret)
}

/// Trusted: `BasicBlockBuilder::basic_block`, on the data flow graph of a
/// function of the program and given a name that it accepts, adds a basic
/// block without parameters to the graph and returns its handle, which no
/// block had before. The layout does not change.
#[verifier::external_body]
pub(crate) fn new_basic_block(
    p: &mut koopa::ir::Program,
    f: koopa::ir::Function,
    name: String,
) -> (bb: koopa::ir::BasicBlock)
    requires
        koopa_has(*old(p), f),
        koopa_name_ok(name@),
    ensures
        !koopa_content(*old(p))[f].blocks.contains_key(bb),
        koopa_updated(*old(p), *final(p), f, koopa_content(*old(p))[f].with_block(bb, name@)),
{
    p.func_mut(f).dfg_mut().new_bb().basic_block(Some(name))
}

/// Trusted: `KeyNodeList::push_key_back`, on the block list of a function's
/// layout and given a block that the list does not hold, adds the block at the
/// end of the layout, with no instructions.
#[verifier::external_body]
pub(crate) fn layout_push(
    p: &mut koopa::ir::Program,
    f: koopa::ir::Function,
    bb: koopa::ir::BasicBlock,
)
    requires
        koopa_has(*old(p), f),
        !koopa_content(*old(p))[f].layout.contains(bb),
    ensures
        koopa_updated(*old(p), *final(p), f, koopa_content(*old(p))[f].with_layout(bb)),
{
    p.func_mut(f).layout_mut().bbs_mut().push_key_back(bb).ok();
}

/// Trusted: `KeyNodeList::push_key_back`, on the instruction list of a block
/// of a function's layout and given a value that the list does not hold, adds
/// the value at the end of the list.
#[verifier::external_body]
pub(crate) fn push_inst(
    p: &mut koopa::ir::Program,
    f: koopa::ir::Function,
    bb: koopa::ir::BasicBlock,
    v: koopa::ir::Value,
)
    requires
        koopa_has(*old(p), f),
        koopa_content(*old(p))[f].layout.contains(bb),
        koopa_content(*old(p))[f].insts.contains_key(bb),
        !koopa_content(*old(p))[f].insts[bb].contains(v),
    ensures
        koopa_updated(*old(p), *final(p), f, koopa_content(*old(p))[f].with_inst(bb, v)),
{
    p.func_mut(f).layout_mut().bb_mut(bb).insts_mut().push_key_back(v).ok();
}

/// Trusted: `ValueBuilder::integer`, on the data flow graph of a function of
/// the program, adds an integer literal of the 32-bit integer type and
/// returns its handle, which no value had before.
#[verifier::external_body]
pub(crate) fn new_integer(
    p: &mut koopa::ir::Program,
    f: koopa::ir::Function,
    n: i32,
) -> (v: koopa::ir::Value)
    requires
        koopa_has(*old(p), f),
    ensures
        !koopa_content(*old(p))[f].values.contains_key(v),
        koopa_updated(
            *old(p),
            *final(p),
            f,
            koopa_content(*old(p))[f].with_value(v, KoopaKind::Integer(n), KoopaType::Int32),
        ),
{
    p.func_mut(f).dfg_mut().new_value().integer(n)
}

/// Trusted: `LocalInstBuilder::alloc`, given the 32-bit integer type, adds an
/// allocation whose type is that of pointers to a 32-bit integer.
#[verifier::external_body]
pub(crate) fn new_alloc(
    p: &mut koopa::ir::Program,
    f: koopa::ir::Function,
    ty: koopa::ir::Type,
) -> (v: koopa::ir::Value)
    requires
        koopa_has(*old(p), f),
        koopa_is_i32(ty),
    ensures
        !koopa_content(*old(p))[f].values.contains_key(v),
        koopa_updated(
            *old(p),
            *final(p),
            f,
            koopa_content(*old(p))[f].with_value(v, KoopaKind::Alloc, KoopaType::Pointer),
        ),
{
    p.func_mut(f).dfg_mut().new_value().alloc(ty)
}

/// Trusted: `LocalInstBuilder::load`, given a value of the graph whose type is
/// that of pointers to a 32-bit integer, adds a load of the 32-bit integer
/// type.
#[verifier::external_body]
pub(crate) fn new_load(
    p: &mut koopa::ir::Program,
    f: koopa::ir::Function,
    src: koopa::ir::Value,
) -> (v: koopa::ir::Value)
    requires
        koopa_has(*old(p), f),
        koopa_content(*old(p))[f].is_ptr(src),
    ensures
        !koopa_content(*old(p))[f].values.contains_key(v),
        koopa_updated(
            *old(p),
            *final(p),
            f,
            koopa_content(*old(p))[f].with_value(v, KoopaKind::Load(src), KoopaType::Int32),
        ),
{
    p.func_mut(f).dfg_mut().new_value().load(src)
}

/// Trusted: `LocalInstBuilder::store`, given a value of the 32-bit integer
/// type and a destination whose type is that of pointers to a 32-bit integer,
/// both of the graph, adds a store of the unit type.
#[verifier::external_body]
pub(crate) fn new_store(
    p: &mut koopa::ir::Program,
    f: koopa::ir::Function,
    value: koopa::ir::Value,
    dest: koopa::ir::Value,
) -> (v: koopa::ir::Value)
    requires
        koopa_has(*old(p), f),
        koopa_content(*old(p))[f].is_int(value),
        koopa_content(*old(p))[f].is_ptr(dest),
    ensures
        !koopa_content(*old(p))[f].values.contains_key(v),
        koopa_updated(
            *old(p),
            *final(p),
            f,
            koopa_content(*old(p))[f].with_value(
                v,
                KoopaKind::Store(value, dest),
                KoopaType::Unit,
            ),
        ),
{
    p.func_mut(f).dfg_mut().new_value().store(value, dest)
}

/// Trusted: `LocalInstBuilder::binary`, given two values of the graph of the
/// 32-bit integer type, adds a binary operation of the 32-bit integer type.
#[verifier::external_body]
pub(crate) fn new_binary(
    p: &mut koopa::ir::Program,
    f: koopa::ir::Function,
    op: BinaryOp,
    lhs: koopa::ir::Value,
    rhs: koopa::ir::Value,
) -> (v: koopa::ir::Value)
    requires
        koopa_has(*old(p), f),
        koopa_content(*old(p))[f].is_int(lhs),
        koopa_content(*old(p))[f].is_int(rhs),
    ensures
        !koopa_content(*old(p))[f].values.contains_key(v),
        koopa_updated(
            *old(p),
            *final(p),
            f,
            koopa_content(*old(p))[f].with_value(
                v,
                KoopaKind::Binary(op, lhs, rhs),
                KoopaType::Int32,
            ),
        ),
{
    let op = match op {
        BinaryOp::NotEq => KoopaOp::NotEq, BinaryOp::Eq => KoopaOp::Eq,
        BinaryOp::Gt => KoopaOp::Gt, BinaryOp::Lt => KoopaOp::Lt,
        BinaryOp::Ge => KoopaOp::Ge, BinaryOp::Le => KoopaOp::Le,
        BinaryOp::Add => KoopaOp::Add, BinaryOp::Sub => KoopaOp::Sub,
        BinaryOp::Mul => KoopaOp::Mul, BinaryOp::Div => KoopaOp::Div,
        BinaryOp::Mod => KoopaOp::Mod,
        BinaryOp::And => KoopaOp::And, BinaryOp::Or => KoopaOp::Or,
    };
    p.func_mut(f).dfg_mut().new_value().binary(op, lhs, rhs)
}

/// Trusted: `LocalInstBuilder::branch`, given a value of the graph of the
/// 32-bit integer type and two blocks of the graph without parameters, adds
/// a branch of the unit type, without arguments.
#[verifier::external_body]
pub(crate) fn new_branch(
    p: &mut koopa::ir::Program,
    f: koopa::ir::Function,
    cond: koopa::ir::Value,
    then_bb: koopa::ir::BasicBlock,
    else_bb: koopa::ir::BasicBlock,
) -> (v: koopa::ir::Value)
    requires
        koopa_has(*old(p), f),
        koopa_content(*old(p))[f].is_int(cond),
        koopa_content(*old(p))[f].is_target(then_bb),
        koopa_content(*old(p))[f].is_target(else_bb),
    ensures
        !koopa_content(*old(p))[f].values.contains_key(v),
        koopa_updated(
            *old(p),
            *final(p),
            f,
            koopa_content(*old(p))[f].with_value(
                v,
                KoopaKind::Branch(cond, then_bb, else_bb),
                KoopaType::Unit,
            ),
        ),
{
    p.func_mut(f).dfg_mut().new_value().branch(cond, then_bb, else_bb)
}

/// Trusted: `LocalInstBuilder::jump`, given a block of the graph without
/// parameters, adds a jump of the unit type.
#[verifier::external_body]
pub(crate) fn new_jump(
    p: &mut koopa::ir::Program,
    f: koopa::ir::Function,
    target: koopa::ir::BasicBlock,
) -> (v: koopa::ir::Value)
    requires
        koopa_has(*old(p), f),
        koopa_content(*old(p))[f].is_target(target),
    ensures
        !koopa_content(*old(p))[f].values.contains_key(v),
        koopa_updated(
            *old(p),
            *final(p),
            f,
            koopa_content(*old(p))[f].with_value(v, KoopaKind::Jump(target), KoopaType::Unit),
        ),
{
    p.func_mut(f).dfg_mut().new_value().jump(target)
}

/// Trusted: `LocalInstBuilder::ret`, given no value or a value of the graph
/// of the 32-bit integer type, adds a return of the unit type.
#[verifier::external_body]
pub(crate) fn new_ret(
    p: &mut koopa::ir::Program,
    f: koopa::ir::Function,
    value: Option<koopa::ir::Value>,
) -> (v: koopa::ir::Value)
    requires
        koopa_has(*old(p), f),
        value matches Some(r) ==> koopa_content(*old(p))[f].is_int(r),
    ensures
        !koopa_content(*old(p))[f].values.contains_key(v),
        koopa_updated(
            *old(p),
            *final(p),
            f,
            koopa_content(*old(p))[f].with_value(v, KoopaKind::Return(value), KoopaType::Unit),
        ),
{
    p.func_mut(f).dfg_mut().new_value().ret(value)
}

} // verus!
