use lowering::error::BuildError;
use lowering::ir::entities::{BlockId, BinaryOp, FunctionData, ValueId, ValueKind};
use lowering::ir::structs::{
    BinOp, Block, BlockItem, CompUnit, ConstDecl, ConstDef, Decl, Exp, FuncDef, FuncType, Stmt,
    UnaryOp, VarDecl, VarDef,
};

fn num(n: i32) -> Exp {
    Exp::Number(n)
}

fn name(s: &str) -> Exp {
    Exp::LVal(s.to_string())
}

fn bin(l: Exp, op: BinOp, r: Exp) -> Exp {
    Exp::Binary(Box::new(l), op, Box::new(r))
}

fn or(l: Exp, r: Exp) -> Exp {
    Exp::LOr(Box::new(l), Box::new(r))
}

fn and(l: Exp, r: Exp) -> Exp {
    Exp::LAnd(Box::new(l), Box::new(r))
}

fn ret(e: Exp) -> BlockItem {
    BlockItem::Stmt(Stmt::Ret(Some(e)))
}

fn var(s: &str, e: Exp) -> BlockItem {
    BlockItem::Decl(Decl::Var(VarDecl { defs: vec![VarDef::InitVal(s.to_string(), e)] }))
}

fn var_uninit(s: &str) -> BlockItem {
    BlockItem::Decl(Decl::Var(VarDecl { defs: vec![VarDef::Ident(s.to_string())] }))
}

fn constant(s: &str, e: Exp) -> BlockItem {
    BlockItem::Decl(Decl::Const(ConstDecl { defs: vec![ConstDef { ident: s.to_string(), value: e }] }))
}

fn assign(s: &str, e: Exp) -> BlockItem {
    BlockItem::Stmt(Stmt::Assign(s.to_string(), e))
}

fn block(items: Vec<BlockItem>) -> Stmt {
    Stmt::Block(Block { items })
}

fn if_else(c: Exp, t: Stmt, f: Stmt) -> BlockItem {
    BlockItem::Stmt(Stmt::If(c, Box::new(t), Some(Box::new(f))))
}

fn if_only(c: Exp, t: Stmt) -> BlockItem {
    BlockItem::Stmt(Stmt::If(c, Box::new(t), None))
}

fn unit(items: Vec<BlockItem>) -> CompUnit {
    CompUnit {
        func_def: FuncDef { func_type: FuncType::Int, ident: "main".to_string(), block: Block { items } },
    }
}

fn build(items: Vec<BlockItem>) -> FunctionData {
    let mut p = unit(items).build().unwrap();
    assert_eq!(p.funcs.len(), 1);
    p.funcs.pop().unwrap()
}

fn build_err(items: Vec<BlockItem>) -> BuildError {
    unit(items).build().unwrap_err()
}

fn kinds(f: &FunctionData, bb: usize) -> Vec<ValueKind> {
    f.bbs[bb].insts.iter().map(|v| f.values[v.0]).collect()
}

fn is_terminator(k: &ValueKind) -> bool {
    matches!(k, ValueKind::Branch(..) | ValueKind::Jump(..) | ValueKind::Return(..))
}

/// Checks what holds of every function that the builder returns.
fn check_shape(f: &FunctionData) {
    assert!(f.is_well_formed());
    for (b, data) in f.bbs.iter().enumerate() {
        for (j, v) in data.insts.iter().enumerate() {
            assert!(v.0 < f.values.len());
            assert!(!matches!(f.values[v.0], ValueKind::Integer(_)));
            if j + 1 < data.insts.len() {
                assert!(!is_terminator(&f.values[v.0]), "block {} has code after a terminator", b);
            }
        }
    }
    let mut seen = Vec::new();
    for bb in f.layout.iter() {
        assert!(bb.0 < f.bbs.len());
        assert!(!seen.contains(&bb.0));
        seen.push(bb.0);
    }
    for (i, k) in f.values.iter().enumerate() {
        let operands: Vec<ValueId> = match *k {
            ValueKind::Load(a) => vec![a],
            ValueKind::Store(a, b) => vec![a, b],
            ValueKind::Binary(_, a, b) => vec![a, b],
            ValueKind::Branch(a, _, _) => vec![a],
            ValueKind::Return(Some(a)) => vec![a],
            _ => vec![],
        };
        for o in operands {
            assert!(o.0 < i);
        }
        match *k {
            ValueKind::Branch(_, t, e) => {
                assert!(f.layout.contains(&t));
                assert!(f.layout.contains(&e));
            }
            ValueKind::Jump(t) => assert!(f.layout.contains(&t)),
            _ => {}
        }
    }
}

/// Runs a function of the representation from its entry block. Returns the
/// result and the blocks that were entered, in order.
fn run(f: &FunctionData) -> (Option<i32>, Vec<usize>) {
    let mut regs: Vec<Option<i32>> = vec![None; f.values.len()];
    let mut slots: Vec<Option<i32>> = vec![None; f.values.len()];
    let mut trace = Vec::new();
    let mut bb = f.layout[0];
    loop {
        trace.push(bb.0);
        assert!(trace.len() < 1000);
        let mut next: Option<BlockId> = None;
        for v in f.bbs[bb.0].insts.iter() {
            let get = |x: ValueId, regs: &Vec<Option<i32>>| match f.values[x.0] {
                ValueKind::Integer(n) => n,
                _ => regs[x.0].unwrap(),
            };
            match f.values[v.0] {
                ValueKind::Integer(_) => unreachable!(),
                ValueKind::Alloc => {}
                ValueKind::Load(src) => regs[v.0] = Some(slots[src.0].unwrap()),
                ValueKind::Store(value, dest) => slots[dest.0] = Some(get(value, &regs)),
                ValueKind::Binary(op, l, r) => {
                    let (a, b) = (get(l, &regs), get(r, &regs));
                    regs[v.0] = Some(match op {
                        BinaryOp::NotEq => (a != b) as i32,
                        BinaryOp::Eq => (a == b) as i32,
                        BinaryOp::Gt => (a > b) as i32,
                        BinaryOp::Lt => (a < b) as i32,
                        BinaryOp::Ge => (a >= b) as i32,
                        BinaryOp::Le => (a <= b) as i32,
                        BinaryOp::Add => a.wrapping_add(b),
                        BinaryOp::Sub => a.wrapping_sub(b),
                        BinaryOp::Mul => a.wrapping_mul(b),
                        BinaryOp::Div => a.wrapping_div(b),
                        BinaryOp::Mod => a.wrapping_rem(b),
                        BinaryOp::And => a & b,
                        BinaryOp::Or => a | b,
                    });
                }
                ValueKind::Branch(c, t, e) => {
                    next = Some(if get(c, &regs) != 0 { t } else { e });
                }
                ValueKind::Jump(t) => next = Some(t),
                ValueKind::Return(r) => return (r.map(|x| get(x, &regs)), trace),
            }
        }
        match next {
            Some(n) => bb = n,
            None => return (None, trace),
        }
    }
}

fn block_named(f: &FunctionData, prefix: &str) -> usize {
    let found: Vec<usize> =
        (0..f.bbs.len()).filter(|i| f.bbs[*i].name.starts_with(prefix)).collect();
    assert_eq!(found.len(), 1, "blocks named {}*", prefix);
    found[0]
}

#[test]
fn empty_function_has_only_its_entry_block() {
    let f = build(vec![]);
    assert_eq!(f.name, "main");
    assert_eq!(f.layout, vec![BlockId(0)]);
    assert_eq!(f.bbs.len(), 1);
    assert_eq!(f.bbs[0].name, "%main_0");
    assert!(f.bbs[0].insts.is_empty());
    assert!(f.values.is_empty());
}

#[test]
fn return_of_a_literal() {
    let f = build(vec![ret(num(5))]);
    assert!(matches!(f.values[..], [ValueKind::Integer(5), ValueKind::Return(Some(ValueId(0)))]));
    assert_eq!(f.bbs[0].insts, vec![ValueId(1)]);
    assert_eq!(run(&f).0, Some(5));
}

#[test]
fn constant_folding_emits_no_arithmetic() {
    let f = build(vec![
        constant("x", bin(num(1), BinOp::Add, bin(num(2), BinOp::Mul, num(3)))),
        ret(name("x")),
    ]);
    assert!(matches!(f.values[..], [ValueKind::Integer(7), ValueKind::Return(Some(ValueId(0)))]));
    assert_eq!(f.bbs[0].insts, vec![ValueId(1)]);
    check_shape(&f);
}

#[test]
fn constants_can_use_earlier_constants() {
    let f = build(vec![
        constant("a", num(6)),
        constant("b", bin(name("a"), BinOp::Mul, num(7))),
        ret(name("b")),
    ]);
    assert_eq!(run(&f).0, Some(42));
    assert_eq!(f.bbs[0].insts.len(), 1);
}

#[test]
fn variable_declaration_reserves_then_stores() {
    let f = build(vec![var("a", num(1))]);
    assert!(matches!(
        f.values[..],
        [ValueKind::Alloc, ValueKind::Integer(1), ValueKind::Store(ValueId(1), ValueId(0))]
    ));
    assert_eq!(f.bbs[0].insts, vec![ValueId(0), ValueId(2)]);
}

#[test]
fn variable_without_initializer_only_reserves() {
    let f = build(vec![var_uninit("a")]);
    assert!(matches!(f.values[..], [ValueKind::Alloc]));
    assert_eq!(f.bbs[0].insts, vec![ValueId(0)]);
}

#[test]
fn initializer_does_not_see_the_variable_it_initializes() {
    assert_eq!(build_err(vec![var("a", name("a"))]), BuildError::UndefinedSymbol);
}

#[test]
fn assignment_stores_to_the_slot() {
    let f = build(vec![var_uninit("a"), assign("a", num(3)), ret(name("a"))]);
    assert_eq!(
        kinds(&f, 0).iter().filter(|k| matches!(k, ValueKind::Store(_, ValueId(0)))).count(),
        1
    );
    assert_eq!(run(&f).0, Some(3));
    check_shape(&f);
}

#[test]
fn binary_operators_map_one_to_one() {
    for (op, ir) in [
        (BinOp::Mul, BinaryOp::Mul),
        (BinOp::Div, BinaryOp::Div),
        (BinOp::Mod, BinaryOp::Mod),
        (BinOp::Add, BinaryOp::Add),
        (BinOp::Sub, BinaryOp::Sub),
        (BinOp::Lt, BinaryOp::Lt),
        (BinOp::Le, BinaryOp::Le),
        (BinOp::Gt, BinaryOp::Gt),
        (BinOp::Ge, BinaryOp::Ge),
        (BinOp::Eq, BinaryOp::Eq),
        (BinOp::Ne, BinaryOp::NotEq),
    ] {
        let f = build(vec![ret(bin(num(8), op, num(3)))]);
        assert_eq!(f.values.len(), 4);
        match f.values[2] {
            ValueKind::Binary(o, ValueId(0), ValueId(1)) => assert_eq!(o, ir),
            _ => panic!("expected one binary instruction"),
        }
    }
}

#[test]
fn operands_are_lowered_left_to_right() {
    let f = build(vec![var("a", num(1)), var("b", num(2)), ret(bin(name("a"), BinOp::Sub, name("b")))]);
    let k = kinds(&f, 0);
    let loads: Vec<&ValueKind> = k.iter().filter(|k| matches!(k, ValueKind::Load(_))).collect();
    assert!(matches!(loads[..], [ValueKind::Load(ValueId(0)), ValueKind::Load(ValueId(3))]));
    assert_eq!(run(&f).0, Some(-1));
}

#[test]
fn unary_plus_is_identity() {
    let f = build(vec![ret(Exp::Unary(UnaryOp::Plus, Box::new(num(4))))]);
    assert!(matches!(f.values[..], [ValueKind::Integer(4), ValueKind::Return(Some(ValueId(0)))]));
}

#[test]
fn unary_minus_is_zero_minus_operand() {
    let f = build(vec![ret(Exp::Unary(UnaryOp::Minus, Box::new(num(4))))]);
    assert!(matches!(
        f.values[..],
        [
            ValueKind::Integer(4),
            ValueKind::Integer(0),
            ValueKind::Binary(BinaryOp::Sub, ValueId(1), ValueId(0)),
            ValueKind::Return(Some(ValueId(2)))
        ]
    ));
    assert_eq!(run(&f).0, Some(-4));
}

#[test]
fn logical_not_compares_with_zero() {
    let f = build(vec![ret(Exp::Unary(UnaryOp::Not, Box::new(num(4))))]);
    assert!(matches!(f.values[2], ValueKind::Binary(BinaryOp::Eq, ValueId(1), ValueId(0))));
    assert_eq!(run(&f).0, Some(0));
    let f = build(vec![ret(Exp::Unary(UnaryOp::Not, Box::new(num(0))))]);
    assert_eq!(run(&f).0, Some(1));
}

#[test]
fn short_circuit_or_skips_right_when_left_is_one() {
    let f = build(vec![var("l", num(1)), var("r", num(0)), ret(or(name("l"), name("r")))]);
    check_shape(&f);
    let right = block_named(&f, "%or_r_");
    let end = block_named(&f, "%or_end_");
    assert!(!f.bbs[right].insts.is_empty());
    let (result, trace) = run(&f);
    assert_eq!(result, Some(1));
    assert!(!trace.contains(&right));
    assert_eq!(trace, vec![0, end]);
}

#[test]
fn short_circuit_or_evaluates_right_when_left_is_zero() {
    let f = build(vec![var("l", num(0)), var("r", num(0)), ret(or(name("l"), name("r")))]);
    let right = block_named(&f, "%or_r_");
    let end = block_named(&f, "%or_end_");
    let (result, trace) = run(&f);
    assert_eq!(result, Some(0));
    assert_eq!(trace, vec![0, right, end]);
    let f = build(vec![var("l", num(0)), var("r", num(1)), ret(or(name("l"), name("r")))]);
    assert_eq!(run(&f).0, Some(1));
}

#[test]
fn short_circuit_or_normalizes_to_zero_or_one() {
    let f = build(vec![ret(or(num(5), num(0)))]);
    assert_eq!(run(&f).0, Some(1));
    let f = build(vec![ret(or(num(0), num(-3)))]);
    assert_eq!(run(&f).0, Some(1));
}

#[test]
fn short_circuit_and_skips_right_when_left_is_zero() {
    let f = build(vec![var("l", num(0)), var("r", num(1)), ret(and(name("l"), name("r")))]);
    check_shape(&f);
    let right = block_named(&f, "%and_r_");
    let end = block_named(&f, "%and_end_");
    assert!(!f.bbs[right].insts.is_empty());
    let (result, trace) = run(&f);
    assert_eq!(result, Some(0));
    assert_eq!(trace, vec![0, end]);
}

#[test]
fn short_circuit_and_evaluates_right_when_left_is_one() {
    let f = build(vec![var("l", num(1)), var("r", num(0)), ret(and(name("l"), name("r")))]);
    let right = block_named(&f, "%and_r_");
    let end = block_named(&f, "%and_end_");
    let (result, trace) = run(&f);
    assert_eq!(result, Some(0));
    assert_eq!(trace, vec![0, right, end]);
    let f = build(vec![var("l", num(1)), var("r", num(1)), ret(and(name("l"), name("r")))]);
    assert_eq!(run(&f).0, Some(1));
    let f = build(vec![ret(and(num(7), num(9)))]);
    assert_eq!(run(&f).0, Some(1));
}

#[test]
fn short_circuit_or_has_the_documented_shape() {
    let f = build(vec![ret(or(num(1), num(2)))]);
    assert_eq!(f.layout, vec![BlockId(0), BlockId(1), BlockId(2)]);
    assert_eq!(f.bbs[1].name, "%or_r_1");
    assert_eq!(f.bbs[2].name, "%or_end_2");
    assert!(matches!(
        kinds(&f, 0)[..],
        [
            ValueKind::Alloc,
            ValueKind::Store(ValueId(1), ValueId(0)),
            ValueKind::Branch(ValueId(1), BlockId(2), BlockId(1))
        ]
    ));
    assert!(matches!(
        kinds(&f, 1)[..],
        [ValueKind::Store(_, ValueId(0)), ValueKind::Jump(BlockId(2))]
    ));
    assert!(matches!(
        kinds(&f, 2)[..],
        [ValueKind::Load(ValueId(0)), ValueKind::Binary(BinaryOp::NotEq, _, _), ValueKind::Return(_)]
    ));
}

#[test]
fn short_circuit_and_branches_on_left_being_zero() {
    let f = build(vec![ret(and(num(1), num(2)))]);
    assert_eq!(f.bbs[1].name, "%and_r_1");
    assert_eq!(f.bbs[2].name, "%and_end_2");
    match kinds(&f, 0)[..] {
        [ValueKind::Alloc, ValueKind::Store(l, ValueId(0)), ValueKind::Binary(BinaryOp::Eq, l2, zero), ValueKind::Branch(c, BlockId(2), BlockId(1))] =>
        {
            assert_eq!(l, l2);
            assert!(matches!(f.values[zero.0], ValueKind::Integer(0)));
            assert_eq!(c, f.bbs[0].insts[2]);
        }
        _ => panic!("unexpected shape"),
    }
}

#[test]
fn nested_short_circuits_get_distinct_labels() {
    let f = build(vec![ret(or(and(num(1), num(0)), or(num(0), and(num(1), num(1)))))]);
    check_shape(&f);
    let mut names: Vec<&String> = f.bbs.iter().map(|b| &b.name).collect();
    let n = names.len();
    names.sort();
    names.dedup();
    assert_eq!(names.len(), n);
    assert_eq!(run(&f).0, Some(1));
}

#[test]
fn conditional_with_both_arms_returning_has_no_end_block() {
    let f = build(vec![
        var("a", num(1)),
        var("b", num(2)),
        if_else(
            bin(name("a"), BinOp::Lt, name("b")),
            block(vec![ret(bin(name("a"), BinOp::Add, name("b")))]),
            block(vec![ret(num(0))]),
        ),
    ]);
    check_shape(&f);
    assert_eq!(f.layout, vec![BlockId(0), BlockId(1), BlockId(2)]);
    assert_eq!(f.bbs[0].name, "%main_0");
    assert_eq!(f.bbs[1].name, "%if_1");
    assert_eq!(f.bbs[2].name, "%else_2");
    assert!(f.bbs[3].insts.is_empty());
    assert!(matches!(kinds(&f, 0).last(), Some(ValueKind::Branch(_, BlockId(1), BlockId(2)))));
    assert!(matches!(
        kinds(&f, 1)[..],
        [ValueKind::Load(_), ValueKind::Load(_), ValueKind::Binary(BinaryOp::Add, _, _), ValueKind::Return(Some(_))]
    ));
    assert!(matches!(kinds(&f, 2)[..], [ValueKind::Return(Some(_))]));
    let (result, trace) = run(&f);
    assert_eq!(result, Some(3));
    assert_eq!(trace, vec![0, 1]);
}

#[test]
fn conditional_runs_exactly_one_arm_and_reaches_end_once() {
    for (c, expected, arm) in [(1, 10, 1usize), (0, 20, 2usize)] {
        let f = build(vec![
            var_uninit("x"),
            if_else(num(c), Stmt::Assign("x".to_string(), num(10)), Stmt::Assign("x".to_string(), num(20))),
            ret(name("x")),
        ]);
        check_shape(&f);
        assert_eq!(f.layout, vec![BlockId(0), BlockId(1), BlockId(2), BlockId(3)]);
        assert_eq!(f.bbs[3].name, "%if_end_3");
        let (result, trace) = run(&f);
        assert_eq!(result, Some(expected));
        assert_eq!(trace, vec![0, arm, 3]);
        assert!(matches!(kinds(&f, 1).last(), Some(ValueKind::Jump(BlockId(3)))));
        assert!(matches!(kinds(&f, 2).last(), Some(ValueKind::Jump(BlockId(3)))));
    }
}

#[test]
fn arm_that_returns_gets_no_jump() {
    let f = build(vec![
        var("x", num(1)),
        if_else(name("x"), Stmt::Ret(Some(num(1))), Stmt::Assign("x".to_string(), num(2))),
        ret(name("x")),
    ]);
    check_shape(&f);
    assert!(matches!(kinds(&f, 1)[..], [ValueKind::Return(Some(_))]));
    assert!(matches!(kinds(&f, 2).last(), Some(ValueKind::Jump(BlockId(3)))));
    assert!(f.layout.contains(&BlockId(3)));
}

#[test]
fn conditional_without_else_falls_through_to_end() {
    let f = build(vec![
        var("x", num(0)),
        if_only(name("x"), Stmt::Assign("x".to_string(), num(5))),
        ret(name("x")),
    ]);
    check_shape(&f);
    assert!(matches!(kinds(&f, 2)[..], [ValueKind::Jump(BlockId(3))]));
    let (result, trace) = run(&f);
    assert_eq!(result, Some(0));
    assert_eq!(trace, vec![0, 2, 3]);
}

#[test]
fn statement_after_return_opens_a_new_block() {
    let f = build(vec![ret(num(1)), ret(num(2))]);
    check_shape(&f);
    assert_eq!(f.layout, vec![BlockId(0), BlockId(1)]);
    assert_eq!(f.bbs[1].name, "%ret_1");
    assert_eq!(kinds(&f, 0).len(), 1);
    assert_eq!(kinds(&f, 1).len(), 1);
    assert_eq!(run(&f).0, Some(1));
}

#[test]
fn return_after_two_terminating_arms_opens_a_new_block() {
    let f = build(vec![
        if_else(num(1), Stmt::Ret(Some(num(1))), Stmt::Ret(Some(num(2)))),
        ret(num(3)),
    ]);
    check_shape(&f);
    assert_eq!(f.layout.len(), 4);
    assert_eq!(f.layout[3], BlockId(4));
    assert_eq!(f.bbs[4].name, "%ret_4");
    assert!(!f.layout.contains(&BlockId(3)));
}

#[test]
fn nested_conditionals_keep_every_block_well_formed() {
    let inner = Stmt::If(
        name("b"),
        Box::new(Stmt::Ret(Some(num(1)))),
        Some(Box::new(Stmt::Assign("a".to_string(), num(7)))),
    );
    let f = build(vec![
        var("a", num(1)),
        var("b", num(0)),
        if_else(name("a"), block(vec![BlockItem::Stmt(inner), assign("b", num(3))]), Stmt::Ret(Some(num(9)))),
        ret(bin(name("a"), BinOp::Add, name("b"))),
    ]);
    check_shape(&f);
    assert_eq!(run(&f).0, Some(10));
}

#[test]
fn return_without_value_and_expression_statement_emit_nothing() {
    let f = build(vec![BlockItem::Stmt(Stmt::Ret(None)), BlockItem::Stmt(Stmt::Exp(Some(num(1)))), BlockItem::Stmt(Stmt::Exp(None))]);
    assert!(f.values.is_empty());
    assert!(f.bbs[0].insts.is_empty());
}

#[test]
fn variable_declared_in_arm_is_undefined_after_it() {
    let e = build_err(vec![
        if_else(num(1), block(vec![var("x", num(1))]), block(vec![])),
        ret(name("x")),
    ]);
    assert_eq!(e, BuildError::UndefinedSymbol);
    let e = build_err(vec![if_only(num(1), Stmt::Block(Block { items: vec![var("x", num(1))] })), ret(name("x"))]);
    assert_eq!(e, BuildError::UndefinedSymbol);
}

#[test]
fn variable_declared_in_one_arm_is_undefined_in_the_other() {
    let e = build_err(vec![if_else(
        num(1),
        block(vec![var("x", num(1))]),
        block(vec![ret(name("x"))]),
    )]);
    assert_eq!(e, BuildError::UndefinedSymbol);
}

#[test]
fn reference_inside_arm_resolves_to_inner_binding() {
    let f = build(vec![
        var("x", num(1)),
        if_only(num(1), block(vec![var("x", num(2)), ret(name("x"))])),
        ret(name("x")),
    ]);
    check_shape(&f);
    let arm = kinds(&f, 1);
    let inner_slot = f.bbs[1].insts[0];
    assert!(matches!(f.values[inner_slot.0], ValueKind::Alloc));
    assert_ne!(inner_slot, ValueId(0));
    assert!(arm.iter().any(|k| matches!(k, ValueKind::Load(s) if *s == inner_slot)));
    assert!(!arm.iter().any(|k| matches!(k, ValueKind::Load(ValueId(0)))));
    let end = kinds(&f, 3);
    assert!(matches!(end[..], [ValueKind::Load(ValueId(0)), ValueKind::Return(_)]));
    assert_eq!(run(&f).0, Some(2));
}

#[test]
fn same_name_in_nested_block_is_no_duplicate() {
    let f = build(vec![var("x", num(1)), BlockItem::Stmt(block(vec![var("x", num(2))])), ret(name("x"))]);
    assert_eq!(run(&f).0, Some(1));
}

#[test]
fn duplicate_declaration_is_rejected() {
    assert_eq!(build_err(vec![var("x", num(1)), var("x", num(2))]), BuildError::DuplicateDeclaration);
    assert_eq!(build_err(vec![constant("x", num(1)), var_uninit("x")]), BuildError::DuplicateDeclaration);
    assert_eq!(build_err(vec![var_uninit("x"), constant("x", num(1))]), BuildError::DuplicateDeclaration);
}

#[test]
fn undefined_symbol_is_rejected() {
    assert_eq!(build_err(vec![ret(name("x"))]), BuildError::UndefinedSymbol);
    assert_eq!(build_err(vec![assign("x", num(1))]), BuildError::UndefinedSymbol);
    assert_eq!(build_err(vec![constant("c", name("x"))]), BuildError::UndefinedSymbol);
}

#[test]
fn assignment_to_constant_is_rejected() {
    assert_eq!(
        build_err(vec![constant("c", num(1)), assign("c", num(2))]),
        BuildError::AssignmentToConstant
    );
}

#[test]
fn non_constant_initializer_is_rejected() {
    assert_eq!(
        build_err(vec![var("v", num(1)), constant("c", name("v"))]),
        BuildError::NonConstantExpression
    );
}

#[test]
fn division_by_zero_in_constant_is_rejected() {
    assert_eq!(
        build_err(vec![constant("c", bin(num(1), BinOp::Div, num(0)))]),
        BuildError::DivisionByZero
    );
    assert_eq!(
        build_err(vec![constant("z", num(0)), constant("c", bin(num(1), BinOp::Mod, name("z")))]),
        BuildError::DivisionByZero
    );
}

#[test]
fn division_by_zero_at_run_time_is_no_build_error() {
    let f = build(vec![var("z", num(0)), ret(bin(num(1), BinOp::Div, name("z")))]);
    check_shape(&f);
}

#[test]
fn first_error_in_source_order_wins() {
    assert_eq!(
        build_err(vec![ret(name("nope")), var("x", num(1)), var("x", num(2))]),
        BuildError::UndefinedSymbol
    );
    assert_eq!(
        build_err(vec![var("x", num(1)), var("x", num(2)), ret(name("nope"))]),
        BuildError::DuplicateDeclaration
    );
}
