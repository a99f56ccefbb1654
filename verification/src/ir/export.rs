//! Export of a function of the representation into a Koopa IR program.
//!
//! The Koopa program is built by the `koopa` crate itself, through its builder
//! interface. What is proved here is that a well-formed function meets every
//! demand of that interface, and that the program that comes out holds the
//! function, handle for handle.

use vstd::prelude::*;
use vstd::string::{StrSliceExecFns, StringExecFns};
use crate::error::BuildError;
use crate::ir::label::{labelled, lemma_is_label_shape};
use crate::ir::entities::{BlockId, FuncModel, FunctionData, Module, TypeKind, ValueId, ValueKind};
use crate::ir::koopa_ir::{
    int_type,
    koopa_content,
    koopa_has,
    koopa_name_ok,
    koopa_order,
    koopa_updated,
    layout_push,
    new_alloc,
    new_basic_block,
    new_binary,
    new_branch,
    new_func_def,
    new_integer,
    new_jump,
    new_load,
    new_program,
    new_ret,
    new_store,
    push_inst,
    KoopaBlock,
    KoopaFunc,
    KoopaKind,
    KoopaType,
    KoopaValue,
};
use crate::ir::stmt::lower_unit;
use crate::ir::structs::CompUnit;

verus! {

/// The handles that the export of a function gave to the function, to its
/// values and to its blocks, each at the position of what it stands for.
pub struct Handles {
    pub func: koopa::ir::Function,
    pub values: Vec<koopa::ir::Value>,
    pub bbs: Vec<koopa::ir::BasicBlock>,
}

/// The kind of a value with Koopa's handles in place of positions.
pub open spec fn koopa_kind(
    kind: ValueKind,
    values: Seq<koopa::ir::Value>,
    bbs: Seq<koopa::ir::BasicBlock>,
) -> KoopaKind {
    match kind {
        ValueKind::Integer(n) => KoopaKind::Integer(n),
        ValueKind::Alloc => KoopaKind::Alloc,
        ValueKind::Load(src) => KoopaKind::Load(values[src.0 as int]),
        ValueKind::Store(value, dest) => KoopaKind::Store(
            values[value.0 as int],
            values[dest.0 as int],
        ),
        ValueKind::Binary(op, lhs, rhs) => KoopaKind::Binary(
            op,
            values[lhs.0 as int],
            values[rhs.0 as int],
        ),
        ValueKind::Branch(cond, t, e) => KoopaKind::Branch(
            values[cond.0 as int],
            bbs[t.0 as int],
            bbs[e.0 as int],
        ),
        ValueKind::Jump(target) => KoopaKind::Jump(bbs[target.0 as int]),
        ValueKind::Return(None) => KoopaKind::Return(None),
        ValueKind::Return(Some(value)) => KoopaKind::Return(Some(values[value.0 as int])),
    }
}

/// The type of Koopa IR for a type of the representation.
pub open spec fn koopa_type(ty: TypeKind) -> KoopaType {
    match ty {
        TypeKind::Int32 => KoopaType::Int32,
        TypeKind::Unit => KoopaType::Unit,
        TypeKind::Pointer => KoopaType::Pointer,
    }
}

/// The value of Koopa IR for the value at position `i`.
pub open spec fn koopa_value(
    m: FuncModel,
    values: Seq<koopa::ir::Value>,
    bbs: Seq<koopa::ir::BasicBlock>,
    i: int,
) -> KoopaValue {
    KoopaValue { kind: koopa_kind(m.values[i], values, bbs), ty: koopa_type(m.values[i].ty()) }
}

/// The instructions of a block with Koopa's handles in place of positions.
pub open spec fn koopa_insts(m: FuncModel, values: Seq<koopa::ir::Value>, b: BlockId) -> Seq<
    koopa::ir::Value,
> {
    Seq::new(m.bbs[b.0 as int].insts.len(), |j: int| values[m.bbs[b.0 as int].insts[j].0 as int])
}

/// The data flow graph of `c` holds the first `n` blocks of `m`, under the
/// handles `bbs`, and no other block.
#[verifier::opaque]
pub open spec fn holds_blocks(
    c: KoopaFunc,
    m: FuncModel,
    bbs: Seq<koopa::ir::BasicBlock>,
    n: int,
) -> bool {
    &&& bbs.len() == n
    &&& bbs.no_duplicates()
    &&& forall|kb: koopa::ir::BasicBlock| c.blocks.contains_key(kb) <==> bbs.contains(kb)
    &&& forall|j: int|
        0 <= j < n ==> c.blocks[#[trigger] bbs[j]] == (KoopaBlock {
            name: Some(m.bbs[j].name),
            params: 0,
        })
}

/// The data flow graph of `c` holds the first `n` values of `m`, under the
/// handles `values`, and no other value.
#[verifier::opaque]
pub open spec fn holds_values(
    c: KoopaFunc,
    m: FuncModel,
    values: Seq<koopa::ir::Value>,
    bbs: Seq<koopa::ir::BasicBlock>,
    n: int,
) -> bool {
    &&& values.len() == n
    &&& values.no_duplicates()
    &&& forall|kv: koopa::ir::Value| c.values.contains_key(kv) <==> values.contains(kv)
    &&& forall|j: int|
        0 <= j < n ==> c.values[values[j]] == #[trigger] koopa_value(m, values, bbs, j)
}

/// The layout of `c` holds the first `n` blocks of the layout of `m`, each
/// with all its instructions, and no other block.
#[verifier::opaque]
pub open spec fn holds_layout(
    c: KoopaFunc,
    m: FuncModel,
    values: Seq<koopa::ir::Value>,
    bbs: Seq<koopa::ir::BasicBlock>,
    n: int,
) -> bool {
    &&& c.layout.len() == n
    &&& forall|i: int| 0 <= i < n ==> #[trigger] c.layout[i] == bbs[m.layout[i].0 as int]
    &&& forall|kb: koopa::ir::BasicBlock| c.insts.contains_key(kb) <==> c.layout.contains(kb)
    &&& forall|i: int|
        0 <= i < n ==> c.insts[#[trigger] c.layout[i]] == koopa_insts(m, values, m.layout[i])
}

/// The function `c` of Koopa IR holds the function `m`: its name behind the
/// sigil of a global name, its values and blocks under the handles, its
/// layout, and nothing else.
pub open spec fn holds(
    c: KoopaFunc,
    m: FuncModel,
    values: Seq<koopa::ir::Value>,
    bbs: Seq<koopa::ir::BasicBlock>,
) -> bool {
    &&& c.name == seq!['@'] + m.name
    &&& holds_blocks(c, m, bbs, m.bbs.len() as int)
    &&& holds_values(c, m, values, bbs, m.values.len() as int)
    &&& holds_layout(c, m, values, bbs, m.layout.len() as int)
}

/// Whether a function can be exported: it is well-formed, it has a name, and
/// its blocks have names that Koopa IR accepts.
#[verifier::opaque]
pub open spec fn exportable(m: FuncModel) -> bool {
    &&& m.wf()
    &&& m.name.len() > 0
    &&& forall|b: int| 0 <= b < m.bbs.len() ==> koopa_name_ok(#[trigger] m.bbs[b].name)
}

/// Two updates of one function, one after the other, are an update.
proof fn lemma_updated_twice(
    a: koopa::ir::Program,
    b: koopa::ir::Program,
    c: koopa::ir::Program,
    f: koopa::ir::Function,
    x: KoopaFunc,
    y: KoopaFunc,
)
    requires
        koopa_updated(a, b, f, x),
        koopa_updated(b, c, f, y),
    ensures
        koopa_updated(a, c, f, y),
        koopa_content(c)[f] == y,
        koopa_has(c, f),
{
    assert(koopa_content(a).insert(f, x).insert(f, y) =~= koopa_content(a).insert(f, y));
}

/// A program is the update of itself with what it holds.
proof fn lemma_updated_same(a: koopa::ir::Program, f: koopa::ir::Function)
    requires
        koopa_has(a, f),
    ensures
        koopa_updated(a, a, f, koopa_content(a)[f]),
{
    assert(koopa_content(a).insert(f, koopa_content(a)[f]) =~= koopa_content(a));
}

/// No blocks are held by a graph without blocks.
proof fn lemma_blocks_start(c: KoopaFunc, m: FuncModel)
    requires
        c.blocks.dom().is_empty(),
    ensures
        holds_blocks(c, m, Seq::empty(), 0),
{
    reveal(holds_blocks);
}

/// One more block is held after it is added under a new handle.
proof fn lemma_blocks_step(
    c: KoopaFunc,
    m: FuncModel,
    bbs: Seq<koopa::ir::BasicBlock>,
    n: int,
    kb: koopa::ir::BasicBlock,
)
    requires
        holds_blocks(c, m, bbs, n),
        0 <= n < m.bbs.len(),
        !c.blocks.contains_key(kb),
    ensures
        holds_blocks(c.with_block(kb, m.bbs[n].name), m, bbs.push(kb), n + 1),
{
    reveal(holds_blocks);
    let c2 = c.with_block(kb, m.bbs[n].name);
    let next = bbs.push(kb);
    assert(!bbs.contains(kb));
    assert(next[n] == kb);
    assert forall|x: koopa::ir::BasicBlock| c2.blocks.contains_key(x) implies next.contains(x) by {
        if x != kb {
            assert(bbs.contains(x));
            let j = choose|j: int| 0 <= j < bbs.len() && bbs[j] == x;
            assert(next[j] == x);
        }
    }
    assert forall|x: koopa::ir::BasicBlock| next.contains(x) implies c2.blocks.contains_key(x) by {
        let j = choose|j: int| 0 <= j < next.len() && next[j] == x;
        if j < n {
            assert(bbs.contains(x));
        }
    }
}

/// Blocks that are held stay held when the graph gets a value, and values when
/// it gets a block or the layout changes.
proof fn lemma_blocks_frame(
    c: KoopaFunc,
    d: KoopaFunc,
    m: FuncModel,
    bbs: Seq<koopa::ir::BasicBlock>,
    n: int,
)
    requires
        holds_blocks(c, m, bbs, n),
        d.blocks == c.blocks,
    ensures
        holds_blocks(d, m, bbs, n),
{
    reveal(holds_blocks);
}

/// Values that are held stay held when the layout changes.
proof fn lemma_values_frame(
    c: KoopaFunc,
    d: KoopaFunc,
    m: FuncModel,
    values: Seq<koopa::ir::Value>,
    bbs: Seq<koopa::ir::BasicBlock>,
    n: int,
)
    requires
        holds_values(c, m, values, bbs, n),
        d.values == c.values,
    ensures
        holds_values(d, m, values, bbs, n),
{
    reveal(holds_values);
}

/// A block that is held is one of the graph.
proof fn lemma_block_known(c: KoopaFunc, m: FuncModel, bbs: Seq<koopa::ir::BasicBlock>, b: BlockId)
    requires
        holds_blocks(c, m, bbs, m.bbs.len() as int),
        m.has_block(b),
    ensures
        c.is_target(bbs[b.0 as int]),
        bbs.len() == m.bbs.len(),
{
    reveal(holds_blocks);
    assert(bbs.contains(bbs[b.0 as int]));
}

/// A value that is held has in the graph the type that it has in the function.
proof fn lemma_value_known(
    c: KoopaFunc,
    m: FuncModel,
    values: Seq<koopa::ir::Value>,
    bbs: Seq<koopa::ir::BasicBlock>,
    n: int,
    v: ValueId,
)
    requires
        holds_values(c, m, values, bbs, n),
        v.0 < n <= m.values.len(),
    ensures
        values.len() == n,
        m.is_int(v) ==> c.is_int(values[v.0 as int]),
        m.is_slot(v) ==> c.is_ptr(values[v.0 as int]),
{
    reveal(holds_values);
    assert(values.contains(values[v.0 as int]));
    assert(c.values[values[v.0 as int]] == koopa_value(m, values, bbs, v.0 as int));
}

/// No values are held by a graph without values.
proof fn lemma_values_start(c: KoopaFunc, m: FuncModel, bbs: Seq<koopa::ir::BasicBlock>)
    requires
        c.values.dom().is_empty(),
    ensures
        holds_values(c, m, Seq::empty(), bbs, 0),
{
    reveal(holds_values);
}

/// One more value is held after it is added under a new handle.
proof fn lemma_values_step(
    c: KoopaFunc,
    m: FuncModel,
    values: Seq<koopa::ir::Value>,
    bbs: Seq<koopa::ir::BasicBlock>,
    n: int,
    kv: koopa::ir::Value,
)
    requires
        holds_values(c, m, values, bbs, n),
        exportable(m),
        0 <= n < m.values.len(),
        !c.values.contains_key(kv),
    ensures
        holds_values(
            c.with_value(kv, koopa_kind(m.values[n], values, bbs), koopa_type(m.values[n].ty())),
            m,
            values.push(kv),
            bbs,
            n + 1,
        ),
{
    reveal(holds_values);
    reveal(exportable);
    let c2 = c.with_value(kv, koopa_kind(m.values[n], values, bbs), koopa_type(m.values[n].ty()));
    let next = values.push(kv);
    assert(!values.contains(kv));
    assert(next[n] == kv);
    assert forall|x: koopa::ir::Value| c2.values.contains_key(x) implies next.contains(x) by {
        if x != kv {
            assert(values.contains(x));
            let j = choose|j: int| 0 <= j < values.len() && values[j] == x;
            assert(next[j] == x);
        }
    }
    assert forall|x: koopa::ir::Value| next.contains(x) implies c2.values.contains_key(x) by {
        let j = choose|j: int| 0 <= j < next.len() && next[j] == x;
        if j < n {
            assert(values.contains(x));
        }
    }
    assert forall|j: int| 0 <= j < n + 1 implies c2.values[next[j]] == #[trigger] koopa_value(
        m,
        next,
        bbs,
        j,
    ) by {
        assert(m.value_ok(j));
        if j < n {
            assert(c.values[values[j]] == koopa_value(m, values, bbs, j));
        }
    }
}

/// What holds of the value at a position of a function that can be exported.
proof fn lemma_value_ok(m: FuncModel, i: int)
    requires
        exportable(m),
        0 <= i < m.values.len(),
    ensures
        m.value_ok(i),
{
    reveal(exportable);
}

/// Creates the blocks of the function in the data flow graph.
fn export_blocks(p: &mut koopa::ir::Program, f: koopa::ir::Function, func: &FunctionData) -> (bbs:
    Vec<koopa::ir::BasicBlock>)
    requires
        koopa_has(*old(p), f),
        koopa_content(*old(p))[f].blocks.dom().is_empty(),
        exportable(func@),
    ensures
        koopa_updated(*old(p), *final(p), f, koopa_content(*final(p))[f]),
        koopa_content(*final(p))[f] == (KoopaFunc {
            blocks: koopa_content(*final(p))[f].blocks,
            ..koopa_content(*old(p))[f]
        }),
        holds_blocks(koopa_content(*final(p))[f], func@, bbs@, func@.bbs.len() as int),
{
    let ghost start = koopa_content(*p)[f];
    let mut bbs: Vec<koopa::ir::BasicBlock> = Vec::new();
    let mut b: usize = 0;
    proof {
        lemma_updated_same(*p, f);
        lemma_blocks_start(start, func@);
    }
    while b < func.bbs.len()
        invariant
            b <= func.bbs.len(),
            func@.bbs.len() == func.bbs.len(),
            exportable(func@),
            koopa_updated(*old(p), *p, f, koopa_content(*p)[f]),
            start == koopa_content(*old(p))[f],
            koopa_content(*p)[f] == (KoopaFunc { blocks: koopa_content(*p)[f].blocks, ..start }),
            holds_blocks(koopa_content(*p)[f], func@, bbs@, b as int),
        decreases func.bbs.len() - b,
    {
        let ghost before = *p;
        let ghost c = koopa_content(*p)[f];
        proof {
            reveal(exportable);
            assert(func@.bbs[b as int].name == func.bbs[b as int].name@);
        }
        let kb = new_basic_block(p, f, func.bbs[b].name.clone());
        proof {
            lemma_updated_twice(*old(p), before, *p, f, c, c.with_block(kb, func@.bbs[b as int].name));
            lemma_blocks_step(c, func@, bbs@, b as int, kb);
        }
        bbs.push(kb);
        b += 1;
    }
    bbs
}

/// Creates the value at position `i` in the data flow graph.
fn export_value(
    p: &mut koopa::ir::Program,
    f: koopa::ir::Function,
    func: &FunctionData,
    i: usize,
    values: &Vec<koopa::ir::Value>,
    bbs: &Vec<koopa::ir::BasicBlock>,
) -> (kv: koopa::ir::Value)
    requires
        koopa_has(*old(p), f),
        exportable(func@),
        i < func@.values.len(),
        holds_blocks(koopa_content(*old(p))[f], func@, bbs@, func@.bbs.len() as int),
        holds_values(koopa_content(*old(p))[f], func@, values@, bbs@, i as int),
    ensures
        !koopa_content(*old(p))[f].values.contains_key(kv),
        koopa_updated(
            *old(p),
            *final(p),
            f,
            koopa_content(*old(p))[f].with_value(
                kv,
                koopa_kind(func@.values[i as int], values@, bbs@),
                koopa_type(func@.values[i as int].ty()),
            ),
        ),
{
    let ghost c = koopa_content(*p)[f];
    let ghost m = func@;
    proof {
        lemma_value_ok(m, i as int);
    }
    match func.values[i] {
        ValueKind::Integer(n) => new_integer(p, f, n),
        ValueKind::Alloc => new_alloc(p, f, int_type()),
        ValueKind::Load(src) => {
            proof {
                lemma_value_known(c, m, values@, bbs@, i as int, src);
            }
            new_load(p, f, values[src.0])
        },
        ValueKind::Store(value, dest) => {
            proof {
                lemma_value_known(c, m, values@, bbs@, i as int, value);
                lemma_value_known(c, m, values@, bbs@, i as int, dest);
            }
            new_store(p, f, values[value.0], values[dest.0])
        },
        ValueKind::Binary(op, lhs, rhs) => {
            proof {
                lemma_value_known(c, m, values@, bbs@, i as int, lhs);
                lemma_value_known(c, m, values@, bbs@, i as int, rhs);
            }
            new_binary(p, f, op, values[lhs.0], values[rhs.0])
        },
        ValueKind::Branch(cond, t, e) => {
            proof {
                lemma_value_known(c, m, values@, bbs@, i as int, cond);
                lemma_block_known(c, m, bbs@, t);
                lemma_block_known(c, m, bbs@, e);
            }
            new_branch(p, f, values[cond.0], bbs[t.0], bbs[e.0])
        },
        ValueKind::Jump(target) => {
            proof {
                lemma_block_known(c, m, bbs@, target);
            }
            new_jump(p, f, bbs[target.0])
        },
        ValueKind::Return(None) => new_ret(p, f, None),
        ValueKind::Return(Some(value)) => {
            proof {
                lemma_value_known(c, m, values@, bbs@, i as int, value);
            }
            new_ret(p, f, Some(values[value.0]))
        },
    }
}

/// Creates the values of the function in the data flow graph, in the order of
/// the arena.
fn export_values(
    p: &mut koopa::ir::Program,
    f: koopa::ir::Function,
    func: &FunctionData,
    bbs: &Vec<koopa::ir::BasicBlock>,
) -> (values: Vec<koopa::ir::Value>)
    requires
        koopa_has(*old(p), f),
        exportable(func@),
        koopa_content(*old(p))[f].values.dom().is_empty(),
        holds_blocks(koopa_content(*old(p))[f], func@, bbs@, func@.bbs.len() as int),
    ensures
        koopa_updated(*old(p), *final(p), f, koopa_content(*final(p))[f]),
        koopa_content(*final(p))[f] == (KoopaFunc {
            values: koopa_content(*final(p))[f].values,
            ..koopa_content(*old(p))[f]
        }),
        holds_values(koopa_content(*final(p))[f], func@, values@, bbs@, func@.values.len() as int),
{
    let ghost start = koopa_content(*p)[f];
    let mut values: Vec<koopa::ir::Value> = Vec::new();
    let mut i: usize = 0;
    proof {
        lemma_updated_same(*p, f);
        lemma_values_start(start, func@, bbs@);
    }
    while i < func.values.len()
        invariant
            i <= func.values.len(),
            func@.values.len() == func.values.len(),
            exportable(func@),
            koopa_updated(*old(p), *p, f, koopa_content(*p)[f]),
            start == koopa_content(*old(p))[f],
            koopa_content(*p)[f] == (KoopaFunc { values: koopa_content(*p)[f].values, ..start }),
            holds_blocks(start, func@, bbs@, func@.bbs.len() as int),
            holds_values(koopa_content(*p)[f], func@, values@, bbs@, i as int),
        decreases func.values.len() - i,
    {
        let ghost before = *p;
        let ghost c = koopa_content(*p)[f];
        proof {
            lemma_blocks_frame(start, c, func@, bbs@, func@.bbs.len() as int);
        }
        let kv = export_value(p, f, func, i, &values, bbs);
        proof {
            let c2 = c.with_value(
                kv,
                koopa_kind(func@.values[i as int], values@, bbs@),
                koopa_type(func@.values[i as int].ty()),
            );
            lemma_updated_twice(*old(p), before, *p, f, c, c2);
            lemma_values_step(c, func@, values@, bbs@, i as int, kv);
        }
        values.push(kv);
        i += 1;
    }
    values
}

/// The handles of values that are held are as many as the values, and each
/// stands for one value only.
proof fn lemma_values_distinct(
    c: KoopaFunc,
    m: FuncModel,
    values: Seq<koopa::ir::Value>,
    bbs: Seq<koopa::ir::BasicBlock>,
    n: int,
)
    requires
        holds_values(c, m, values, bbs, n),
    ensures
        values.len() == n,
        values.no_duplicates(),
{
    reveal(holds_values);
}

/// An instruction of a block of a function that can be exported is a value
/// of the function, and comes after the instructions before it.
proof fn lemma_inst_fresh(m: FuncModel, values: Seq<koopa::ir::Value>, b: BlockId, j: int)
    requires
        exportable(m),
        m.has_block(b),
        0 <= j < m.bbs[b.0 as int].insts.len(),
        values.len() == m.values.len(),
        values.no_duplicates(),
    ensures
        m.has_value(m.bbs[b.0 as int].insts[j]),
        !koopa_insts(m, values, b).take(j).contains(values[m.bbs[b.0 as int].insts[j].0 as int]),
        koopa_insts(m, values, b).take(j + 1) == koopa_insts(m, values, b).take(j).push(
            values[m.bbs[b.0 as int].insts[j].0 as int],
        ),
{
    reveal(exportable);
    let insts = m.bbs[b.0 as int].insts;
    assert(m.block_ok(b.0 as int));
    let done = koopa_insts(m, values, b).take(j);
    let kv = values[insts[j].0 as int];
    if done.contains(kv) {
        // an earlier instruction of the block would have the handle of this one
        let k = choose|k: int| 0 <= k < done.len() && done[k] == kv;
        assert(insts[k].0 < insts[j].0);
        assert(values[insts[k].0 as int] == values[insts[j].0 as int]);
    }
}

/// No block is held by an empty layout.
proof fn lemma_layout_start(
    c: KoopaFunc,
    m: FuncModel,
    values: Seq<koopa::ir::Value>,
    bbs: Seq<koopa::ir::BasicBlock>,
)
    requires
        c.layout.len() == 0,
        c.insts.dom().is_empty(),
    ensures
        holds_layout(c, m, values, bbs, 0),
{
    reveal(holds_layout);
}

/// The next block of the layout of a function that can be exported exists and
/// is not in the layout that is held so far.
proof fn lemma_layout_fresh(
    c: KoopaFunc,
    m: FuncModel,
    values: Seq<koopa::ir::Value>,
    bbs: Seq<koopa::ir::BasicBlock>,
    n: int,
)
    requires
        exportable(m),
        holds_blocks(c, m, bbs, m.bbs.len() as int),
        holds_layout(c, m, values, bbs, n),
        0 <= n < m.layout.len(),
    ensures
        m.has_block(m.layout[n]),
        bbs.len() == m.bbs.len(),
        !c.layout.contains(bbs[m.layout[n].0 as int]),
{
    reveal(exportable);
    reveal(holds_blocks);
    reveal(holds_layout);
    let kb = bbs[m.layout[n].0 as int];
    if c.layout.contains(kb) {
        // an earlier block of the layout would have the handle of this one
        let i = choose|i: int| 0 <= i < c.layout.len() && c.layout[i] == kb;
        assert(m.layout[i] != m.layout[n]);
        assert(bbs[m.layout[i].0 as int] == bbs[m.layout[n].0 as int]);
    }
}

/// One more block of the layout is held after it is laid out with all its
/// instructions.
proof fn lemma_layout_step(
    c: KoopaFunc,
    d: KoopaFunc,
    m: FuncModel,
    values: Seq<koopa::ir::Value>,
    bbs: Seq<koopa::ir::BasicBlock>,
    n: int,
)
    requires
        holds_layout(c, m, values, bbs, n),
        0 <= n < m.layout.len(),
        !c.layout.contains(bbs[m.layout[n].0 as int]),
        d.layout == c.layout.push(bbs[m.layout[n].0 as int]),
        d.insts == c.insts.insert(bbs[m.layout[n].0 as int], koopa_insts(m, values, m.layout[n])),
    ensures
        holds_layout(d, m, values, bbs, n + 1),
{
    reveal(holds_layout);
    let kb = bbs[m.layout[n].0 as int];
    assert(d.layout[n] == kb);
    assert forall|x: koopa::ir::BasicBlock| d.insts.contains_key(x) implies d.layout.contains(x) by {
        if x != kb {
            assert(c.layout.contains(x));
            let i = choose|i: int| 0 <= i < c.layout.len() && c.layout[i] == x;
            assert(d.layout[i] == x);
        }
    }
    assert forall|x: koopa::ir::BasicBlock| d.layout.contains(x) implies d.insts.contains_key(x) by {
        let i = choose|i: int| 0 <= i < d.layout.len() && d.layout[i] == x;
        if i < n {
            assert(c.layout.contains(x));
        }
    }
}

/// Appends the instructions of a block to the block of the layout that stands
/// for it, which is empty.
fn export_insts(
    p: &mut koopa::ir::Program,
    f: koopa::ir::Function,
    func: &FunctionData,
    b: BlockId,
    kb: koopa::ir::BasicBlock,
    values: &Vec<koopa::ir::Value>,
)
    requires
        koopa_has(*old(p), f),
        exportable(func@),
        func@.has_block(b),
        values@.len() == func@.values.len(),
        values@.no_duplicates(),
        koopa_content(*old(p))[f].layout.contains(kb),
        koopa_content(*old(p))[f].insts.contains_key(kb),
        koopa_content(*old(p))[f].insts[kb].len() == 0,
    ensures
        koopa_updated(*old(p), *final(p), f, koopa_content(*final(p))[f]),
        koopa_content(*final(p))[f] == (KoopaFunc {
            insts: koopa_content(*old(p))[f].insts.insert(kb, koopa_insts(func@, values@, b)),
            ..koopa_content(*old(p))[f]
        }),
{
    let ghost start = koopa_content(*p)[f];
    let ghost all = koopa_insts(func@, values@, b);
    let insts = &func.bbs[b.0].insts;
    let mut j: usize = 0;
    proof {
        lemma_updated_same(*p, f);
        assert(start.insts[kb] =~= all.take(0));
        assert(start.insts.insert(kb, all.take(0)) =~= start.insts);
    }
    while j < insts.len()
        invariant
            j <= insts.len(),
            insts@ == func@.bbs[b.0 as int].insts,
            all == koopa_insts(func@, values@, b),
            exportable(func@),
            func@.has_block(b),
            values@.len() == func@.values.len(),
            values@.no_duplicates(),
            koopa_updated(*old(p), *p, f, koopa_content(*p)[f]),
            start == koopa_content(*old(p))[f],
            start.layout.contains(kb),
            koopa_content(*p)[f] == (KoopaFunc {
                insts: start.insts.insert(kb, all.take(j as int)),
                ..start
            }),
        decreases insts.len() - j,
    {
        let ghost before = *p;
        let ghost c = koopa_content(*p)[f];
        proof {
            lemma_inst_fresh(func@, values@, b, j as int);
        }
        let kv = values[insts[j].0];
        push_inst(p, f, kb, kv);
        proof {
            lemma_updated_twice(*old(p), before, *p, f, c, c.with_inst(kb, kv));
            assert(c.with_inst(kb, kv).insts =~= start.insts.insert(kb, all.take(j + 1)));
        }
        j += 1;
    }
    proof {
        assert(all.take(insts.len() as int) =~= all);
    }
}

/// Lays out the blocks of the function, each with its instructions.
fn export_layout(
    p: &mut koopa::ir::Program,
    f: koopa::ir::Function,
    func: &FunctionData,
    values: &Vec<koopa::ir::Value>,
    bbs: &Vec<koopa::ir::BasicBlock>,
)
    requires
        koopa_has(*old(p), f),
        exportable(func@),
        koopa_content(*old(p))[f].layout.len() == 0,
        koopa_content(*old(p))[f].insts.dom().is_empty(),
        holds_blocks(koopa_content(*old(p))[f], func@, bbs@, func@.bbs.len() as int),
        holds_values(koopa_content(*old(p))[f], func@, values@, bbs@, func@.values.len() as int),
    ensures
        koopa_updated(*old(p), *final(p), f, koopa_content(*final(p))[f]),
        koopa_content(*final(p))[f] == (KoopaFunc {
            layout: koopa_content(*final(p))[f].layout,
            insts: koopa_content(*final(p))[f].insts,
            ..koopa_content(*old(p))[f]
        }),
        holds_layout(koopa_content(*final(p))[f], func@, values@, bbs@, func@.layout.len() as int),
{
    let ghost start = koopa_content(*p)[f];
    let mut i: usize = 0;
    proof {
        lemma_updated_same(*p, f);
        lemma_layout_start(start, func@, values@, bbs@);
        lemma_values_distinct(start, func@, values@, bbs@, func@.values.len() as int);
    }
    while i < func.layout.len()
        invariant
            i <= func.layout.len(),
            func@.layout == func.layout@,
            exportable(func@),
            values@.len() == func@.values.len(),
            values@.no_duplicates(),
            koopa_updated(*old(p), *p, f, koopa_content(*p)[f]),
            start == koopa_content(*old(p))[f],
            holds_blocks(start, func@, bbs@, func@.bbs.len() as int),
            koopa_content(*p)[f] == (KoopaFunc {
                layout: koopa_content(*p)[f].layout,
                insts: koopa_content(*p)[f].insts,
                ..start
            }),
            holds_layout(koopa_content(*p)[f], func@, values@, bbs@, i as int),
        decreases func.layout.len() - i,
    {
        let ghost before = *p;
        let ghost c = koopa_content(*p)[f];
        proof {
            lemma_blocks_frame(start, c, func@, bbs@, func@.bbs.len() as int);
            lemma_layout_fresh(c, func@, values@, bbs@, i as int);
        }
        let b = func.layout[i];
        let kb = bbs[b.0];
        layout_push(p, f, kb);
        let ghost mid = *p;
        let ghost c1 = c.with_layout(kb);
        proof {
            lemma_updated_twice(*old(p), before, mid, f, c, c1);
            assert(c1.layout[c1.layout.len() - 1] == kb);
        }
        export_insts(p, f, func, b, kb, values);
        proof {
            let c2 = koopa_content(*p)[f];
            lemma_updated_twice(*old(p), mid, *p, f, c1, c2);
            assert(c2.insts =~= c.insts.insert(kb, koopa_insts(func@, values@, b)));
            lemma_layout_step(c, c2, func@, values@, bbs@, i as int);
        }
        i += 1;
    }
}

/// Adds a function to a Koopa IR program: its blocks, its values and its
/// layout. Returns the handles that stand for them.
pub fn export_function(p: &mut koopa::ir::Program, func: &FunctionData) -> (h: Handles)
    requires
        exportable(func@),
    ensures
        !koopa_content(*old(p)).contains_key(h.func),
        koopa_order(*final(p)) == koopa_order(*old(p)).push(h.func),
        koopa_content(*final(p)) == koopa_content(*old(p)).insert(
            h.func,
            koopa_content(*final(p))[h.func],
        ),
        holds(koopa_content(*final(p))[h.func], func@, h.values@, h.bbs@),
{
    let mut name = String::from_str("@");
    name.append(func.name.as_str());
    proof {
        reveal(exportable);
        reveal_strlit("@");
        assert(name@ =~= seq!['@'] + func@.name);
    }
    let f = new_func_def(p, name, int_type());
    let ghost p0 = *p;
    let bbs = export_blocks(p, f, func);
    let ghost p1 = *p;
    let ghost c1 = koopa_content(p1)[f];
    let values = export_values(p, f, func, &bbs);
    let ghost p2 = *p;
    let ghost c2 = koopa_content(p2)[f];
    proof {
        lemma_blocks_frame(c1, c2, func@, bbs@, func@.bbs.len() as int);
    }
    export_layout(p, f, func, &values, &bbs);
    proof {
        let c3 = koopa_content(*p)[f];
        lemma_blocks_frame(c2, c3, func@, bbs@, func@.bbs.len() as int);
        lemma_values_frame(c2, c3, func@, values@, bbs@, func@.values.len() as int);
        lemma_updated_twice(p0, p1, p2, f, c1, c2);
    }
    Handles { func: f, values, bbs }
}

/// A well-formed function with a name whose blocks are labelled can be
/// exported.
pub proof fn lemma_labelled_exportable(m: FuncModel)
    requires
        m.wf(),
        labelled(m),
        m.name.len() > 0,
    ensures
        exportable(m),
{
    reveal(exportable);
    assert forall|b: int| 0 <= b < m.bbs.len() implies koopa_name_ok(#[trigger] m.bbs[b].name) by {
        lemma_is_label_shape(m.bbs[b].name, b as nat);
    }
}

/// Builds a Koopa IR program that holds the functions of a module, in order.
/// Returns the program and, for each function, the handles that stand for it
/// and for what it holds.
pub fn export(module: &Module) -> (r: (koopa::ir::Program, Vec<Handles>))
    requires
        forall|i: int| 0 <= i < module.funcs@.len() ==> exportable(#[trigger] module.funcs@[i]@),
    ensures
        r.1@.len() == module.funcs@.len(),
        koopa_order(r.0) == Seq::new(r.1@.len(), |i: int| r.1@[i].func),
        forall|i: int|
            0 <= i < r.1@.len() ==> koopa_content(r.0).contains_key(#[trigger] r.1@[i].func)
                && holds(
                koopa_content(r.0)[r.1@[i].func],
                module.funcs@[i]@,
                r.1@[i].values@,
                r.1@[i].bbs@,
            ),
{
    let mut p = new_program();
    let mut handles: Vec<Handles> = Vec::new();
    let mut i: usize = 0;
    while i < module.funcs.len()
        invariant
            i <= module.funcs.len(),
            handles@.len() == i,
            forall|k: int|
                0 <= k < module.funcs@.len() ==> exportable(#[trigger] module.funcs@[k]@),
            koopa_order(p) == Seq::new(handles@.len(), |k: int| handles@[k].func),
            forall|k: int|
                0 <= k < handles@.len() ==> koopa_content(p).contains_key(
                    #[trigger] handles@[k].func,
                ) && holds(
                    koopa_content(p)[handles@[k].func],
                    module.funcs@[k]@,
                    handles@[k].values@,
                    handles@[k].bbs@,
                ),
        decreases module.funcs.len() - i,
    {
        let h = export_function(&mut p, &module.funcs[i]);
        handles.push(h);
        i += 1;
    }
    (p, handles)
}

/// Whether Koopa IR accepts the text as the name of a function or a block.
pub fn name_is_ok(name: &str) -> (ok: bool)
    ensures
        ok == koopa_name_ok(name@),
{
    if name.unicode_len() > 1 {
        let first = name.get_char(0);
        first == '%' || first == '@'
    } else {
        false
    }
}

/// Whether a function can be exported.
pub fn is_exportable(func: &FunctionData) -> (ok: bool)
    ensures
        ok == exportable(func@),
{
    reveal(exportable);
    if !func.is_well_formed() || func.name.as_str().is_empty() {
        return false;
    }
    let mut b: usize = 0;
    while b < func.bbs.len()
        invariant
            b <= func.bbs.len(),
            func@.bbs.len() == func.bbs.len(),
            func@.wf(),
            func@.name.len() > 0,
            forall|k: int| 0 <= k < b ==> koopa_name_ok(#[trigger] func@.bbs[k].name),
        decreases func.bbs.len() - b,
    {
        assert(func@.bbs[b as int].name == func.bbs[b as int].name@);
        if !name_is_ok(func.bbs[b].name.as_str()) {
            proof {
                reveal(exportable);
            }
            return false;
        }
        b += 1;
    }
    true
}

/// Builds a Koopa IR program that holds the functions of a module, if each of
/// them can be exported.
pub fn export_checked(module: &Module) -> (r: Option<(koopa::ir::Program, Vec<Handles>)>)
    ensures
        r is Some <==> forall|i: int|
            0 <= i < module.funcs@.len() ==> exportable(#[trigger] module.funcs@[i]@),
        r matches Some(e) ==> {
            &&& e.1@.len() == module.funcs@.len()
            &&& koopa_order(e.0) == Seq::new(e.1@.len(), |i: int| e.1@[i].func)
            &&& forall|i: int|
                0 <= i < e.1@.len() ==> koopa_content(e.0).contains_key(#[trigger] e.1@[i].func)
                    && holds(
                    koopa_content(e.0)[e.1@[i].func],
                    module.funcs@[i]@,
                    e.1@[i].values@,
                    e.1@[i].bbs@,
                )
        },
{
    let mut i: usize = 0;
    while i < module.funcs.len()
        invariant
            i <= module.funcs.len(),
            forall|k: int| 0 <= k < i ==> exportable(#[trigger] module.funcs@[k]@),
        decreases module.funcs.len() - i,
    {
        if !is_exportable(&module.funcs[i]) {
            return None;
        }
        i += 1;
    }
    Some(export(module))
}

impl CompUnit {
    /// Lowers the compilation unit and builds the Koopa IR program that holds
    /// the function it lowers to.
    pub fn into_koopa(&self) -> (r: Result<(koopa::ir::Program, Handles), BuildError>)
        requires
            self.func_def.ident@.len() > 0,
        ensures
            match r {
                Ok((p, h)) => lower_unit(*self) matches Ok(m) && koopa_order(p) == seq![h.func]
                    && koopa_content(p).contains_key(h.func) && holds(
                    koopa_content(p)[h.func],
                    m,
                    h.values@,
                    h.bbs@,
                ),
                Err(err) => lower_unit(*self) == Err::<FuncModel, _>(err),
            },
    {
        match self.build() {
            Err(err) => Err(err),
            Ok(module) => {
                proof {
                    lemma_labelled_exportable(module.funcs@[0]@);
                }
                let mut p = new_program();
                let h = export_function(&mut p, &module.funcs[0]);
                Ok((p, h))
            },
        }
    }
}

} // verus!
