use lowering::error::AsmError;
use lowering::ir::entities::{
    BlockId, BasicBlockData, BinaryOp, FunctionData, Module, ValueId, ValueKind,
};
use lowering::ir::structs::{
    BinOp, Block, BlockItem, CompUnit, ConstDecl, ConstDef, Decl, Exp, FuncDef, FuncType, Stmt,
    VarDecl, VarDef,
};
use lowering::riscv::inst::Asm;
use lowering::riscv::visitor::{frame_size, Visitor, VisitorImpl};

fn func(values: Vec<ValueKind>, blocks: Vec<Vec<usize>>) -> FunctionData {
    let layout = (0..blocks.len()).map(BlockId).collect();
    FunctionData {
        name: "main".to_string(),
        values,
        bbs: blocks
            .into_iter()
            .enumerate()
            .map(|(i, insts)| BasicBlockData {
                name: format!("%b_{}", i),
                insts: insts.into_iter().map(ValueId).collect(),
            })
            .collect(),
        layout,
    }
}

fn listing(f: FunctionData) -> Result<Vec<String>, AsmError> {
    let p = Module { funcs: vec![f] };
    VisitorImpl::visit(&p).map(|lines| lines.iter().map(|l| l.render()).collect())
}

fn body(f: FunctionData) -> Vec<String> {
    let lines = listing(f).unwrap();
    assert_eq!(lines[0], "  .text");
    assert_eq!(lines[1], "  .global main");
    assert_eq!(lines[2], "main:");
    lines[3..].to_vec()
}

fn allocs(k: usize) -> FunctionData {
    func(vec![ValueKind::Alloc; k], vec![(0..k).collect()])
}

#[test]
fn empty_program_has_only_the_text_directive() {
    let p = Module { funcs: vec![] };
    assert_eq!(Visitor.visit(&p), Ok("  .text\n".to_string()));
}

#[test]
fn function_without_blocks_has_directives_and_label() {
    let f = func(vec![], vec![]);
    assert_eq!(listing(f).unwrap(), vec!["  .text", "  .global main", "main:"]);
}

#[test]
fn export_names_the_first_function() {
    let mut f = func(vec![], vec![]);
    f.name = "start".to_string();
    let g = func(vec![], vec![]);
    let p = Module { funcs: vec![f, g] };
    assert_eq!(
        Visitor.visit(&p),
        Ok("  .text\n  .global start\nstart:\nmain:\n".to_string())
    );
}

#[test]
fn locations_do_not_carry_over_to_the_next_function() {
    let one = func(
        vec![ValueKind::Alloc, ValueKind::Load(ValueId(0)), ValueKind::Return(Some(ValueId(1)))],
        vec![vec![0, 1, 2]],
    );
    let mut two = func(
        vec![ValueKind::Integer(5), ValueKind::Return(Some(ValueId(0)))],
        vec![vec![1]],
    );
    two.name = "two".to_string();
    let p = Module { funcs: vec![one, two] };
    let lines: Vec<String> = VisitorImpl::visit(&p).unwrap().iter().map(|l| l.render()).collect();
    assert_eq!(
        lines,
        vec![
            "  .text",
            "  .global main",
            "main:",
            "  addi sp, sp, -16",
            "  lw t0, 0(sp)",
            "  sw t0, 4(sp)",
            "  mv a0, t0",
            "  ret",
            "two:",
            "  addi sp, sp, -0",
            "  li a0, 5",
            "  ret",
        ]
    );
}

#[test]
fn frame_is_four_bytes_per_slot_rounded_up_to_sixteen() {
    for (k, bytes) in [(0usize, 0u32), (1, 16), (3, 16), (4, 16), (5, 32), (8, 32), (9, 48), (512, 2048)] {
        let f = allocs(k);
        assert_eq!(frame_size(&f, BlockId(0)), Ok(bytes));
        assert_eq!(body(f)[0], format!("  addi sp, sp, -{}", bytes));
    }
}

#[test]
fn only_integer_and_pointer_results_take_a_slot() {
    let f = func(
        vec![
            ValueKind::Alloc,
            ValueKind::Integer(1),
            ValueKind::Store(ValueId(1), ValueId(0)),
            ValueKind::Load(ValueId(0)),
            ValueKind::Binary(BinaryOp::Add, ValueId(3), ValueId(1)),
            ValueKind::Jump(BlockId(0)),
        ],
        vec![vec![0, 2, 3, 4, 5]],
    );
    assert_eq!(frame_size(&f, BlockId(0)), Ok(16));
    let f = func(
        vec![
            ValueKind::Alloc,
            ValueKind::Alloc,
            ValueKind::Alloc,
            ValueKind::Integer(1),
            ValueKind::Store(ValueId(3), ValueId(0)),
            ValueKind::Load(ValueId(0)),
            ValueKind::Binary(BinaryOp::Add, ValueId(5), ValueId(3)),
            ValueKind::Return(None),
        ],
        vec![vec![0, 1, 2, 4, 5, 6, 7]],
    );
    assert_eq!(frame_size(&f, BlockId(0)), Ok(32));
}

#[test]
fn frame_of_more_than_2048_bytes_overflows() {
    let f = allocs(513);
    assert_eq!(frame_size(&f, BlockId(0)), Err(AsmError::FrameOverflow));
    assert_eq!(listing(f), Err(AsmError::FrameOverflow));
    assert_eq!(Visitor.visit(&Module { funcs: vec![allocs(600)] }), Err(AsmError::FrameOverflow));
}

#[test]
fn frame_overflow_is_found_before_the_block_is_walked() {
    let mut f = allocs(513);
    f.values.push(ValueKind::Load(ValueId(9999)));
    f.bbs[0].insts.insert(0, ValueId(513));
    assert_eq!(listing(f), Err(AsmError::FrameOverflow));
}

#[test]
fn return_of_constant_loads_immediate_into_result_register() {
    let f = func(vec![ValueKind::Integer(7), ValueKind::Return(Some(ValueId(0)))], vec![vec![1]]);
    assert_eq!(body(f), vec!["  addi sp, sp, -0", "  li a0, 7", "  ret"]);
}

#[test]
fn return_without_value_is_a_bare_ret() {
    let f = func(vec![ValueKind::Return(None)], vec![vec![0]]);
    assert_eq!(body(f), vec!["  addi sp, sp, -0", "  ret"]);
}

#[test]
fn alloc_emits_nothing() {
    assert_eq!(body(allocs(2)), vec!["  addi sp, sp, -16"]);
}

#[test]
fn branch_and_jump_emit_nothing() {
    let f = func(
        vec![
            ValueKind::Integer(1),
            ValueKind::Branch(ValueId(0), BlockId(1), BlockId(1)),
            ValueKind::Jump(BlockId(0)),
        ],
        vec![vec![1], vec![2]],
    );
    assert_eq!(body(f), vec!["  addi sp, sp, -0", "  addi sp, sp, -0"]);
}

#[test]
fn store_loads_value_and_mirrors_to_the_variable() {
    let f = func(
        vec![ValueKind::Alloc, ValueKind::Integer(5), ValueKind::Store(ValueId(1), ValueId(0))],
        vec![vec![0, 2]],
    );
    assert_eq!(body(f), vec!["  addi sp, sp, -16", "  li t0, 5", "  sw t0, 0(sp)"]);
}

#[test]
fn load_reuses_the_register_of_the_variable_and_mirrors() {
    let f = func(
        vec![
            ValueKind::Alloc,
            ValueKind::Integer(5),
            ValueKind::Store(ValueId(1), ValueId(0)),
            ValueKind::Load(ValueId(0)),
        ],
        vec![vec![0, 2, 3]],
    );
    assert_eq!(
        body(f),
        vec!["  addi sp, sp, -16", "  li t0, 5", "  sw t0, 0(sp)", "  sw t0, 4(sp)"]
    );
}

#[test]
fn load_of_uninitialized_variable_reads_its_slot() {
    let f = func(vec![ValueKind::Alloc, ValueKind::Load(ValueId(0))], vec![vec![0, 1]]);
    assert_eq!(body(f), vec!["  addi sp, sp, -16", "  lw t0, 0(sp)", "  sw t0, 4(sp)"]);
}

#[test]
fn every_binary_operator_has_its_sequence() {
    let table: Vec<(BinaryOp, Vec<&str>)> = vec![
        (BinaryOp::Eq, vec!["  sub t0, t1, a0", "  seqz t0, t0"]),
        (BinaryOp::NotEq, vec!["  sub t0, t1, a0", "  snez t0, t0"]),
        (BinaryOp::Lt, vec!["  slt t0, t1, a0"]),
        (BinaryOp::Gt, vec!["  slt t0, a0, t1"]),
        (BinaryOp::Le, vec!["  slt t0, a0, t1", "  seqz t0, t0"]),
        (BinaryOp::Ge, vec!["  slt t0, t1, a0", "  seqz t0, t0"]),
        (BinaryOp::And, vec!["  and t0, t1, a0"]),
        (BinaryOp::Or, vec!["  or t0, t1, a0"]),
        (BinaryOp::Add, vec!["  add t0, t1, a0"]),
        (BinaryOp::Sub, vec!["  sub t0, t1, a0"]),
        (BinaryOp::Mul, vec!["  mul t0, t1, a0"]),
        (BinaryOp::Div, vec!["  div t0, t1, a0"]),
        (BinaryOp::Mod, vec!["  rem t0, t1, a0"]),
    ];
    for (op, code) in table {
        let f = func(
            vec![ValueKind::Integer(8), ValueKind::Integer(3), ValueKind::Binary(op, ValueId(0), ValueId(1))],
            vec![vec![2]],
        );
        let mut expected = vec!["  addi sp, sp, -16", "  li t1, 8", "  li a0, 3"];
        expected.extend(code);
        expected.push("  sw t0, 0(sp)");
        assert_eq!(body(f), expected);
    }
}

#[test]
fn binary_with_same_operand_twice_loads_it_once() {
    let f = func(
        vec![ValueKind::Integer(4), ValueKind::Binary(BinaryOp::Mul, ValueId(0), ValueId(0))],
        vec![vec![1]],
    );
    assert_eq!(
        body(f),
        vec!["  addi sp, sp, -16", "  li t1, 4", "  mul t0, t1, t1", "  sw t0, 0(sp)"]
    );
}

#[test]
fn produced_value_is_mirrored_before_the_next_instruction() {
    let f = func(
        vec![
            ValueKind::Alloc,
            ValueKind::Integer(1),
            ValueKind::Store(ValueId(1), ValueId(0)),
            ValueKind::Load(ValueId(0)),
            ValueKind::Integer(2),
            ValueKind::Binary(BinaryOp::Add, ValueId(3), ValueId(4)),
            ValueKind::Return(Some(ValueId(5))),
        ],
        vec![vec![0, 2, 3, 5, 6]],
    );
    let mut v = VisitorImpl::new();
    v.vm.set_max_offset(16);
    let mut ends = Vec::new();
    for inst in [0usize, 2, 3, 5] {
        v.visit_local_inst(&f, ValueId(inst)).unwrap();
        ends.push(v.w.last().map(|l| l.render()));
    }
    assert_eq!(ends[0], None);
    assert_eq!(ends[1].as_deref(), Some("  sw t0, 0(sp)"));
    assert_eq!(ends[2].as_deref(), Some("  sw t0, 4(sp)"));
    assert_eq!(ends[3].as_deref(), Some("  sw t1, 8(sp)"));
    assert!(matches!(v.w.last(), Some(Asm::Sw(_, 8))));
}

#[test]
fn use_of_a_value_without_location_is_malformed() {
    let f = func(vec![ValueKind::Alloc, ValueKind::Load(ValueId(0))], vec![vec![1]]);
    assert_eq!(listing(f), Err(AsmError::Malformed));
    let f = func(
        vec![ValueKind::Alloc, ValueKind::Integer(1), ValueKind::Store(ValueId(1), ValueId(0))],
        vec![vec![2]],
    );
    assert_eq!(listing(f), Err(AsmError::Malformed));
    let f = func(
        vec![ValueKind::Alloc, ValueKind::Load(ValueId(0)), ValueKind::Return(Some(ValueId(1)))],
        vec![vec![0, 2]],
    );
    assert_eq!(listing(f), Err(AsmError::Malformed));
    let f = func(
        vec![ValueKind::Alloc, ValueKind::Integer(1), ValueKind::Binary(BinaryOp::Add, ValueId(0), ValueId(1))],
        vec![vec![2]],
    );
    assert_eq!(listing(f), Err(AsmError::Malformed));
}

#[test]
fn literal_or_missing_value_in_a_block_is_malformed() {
    let f = func(vec![ValueKind::Integer(1)], vec![vec![0]]);
    assert_eq!(listing(f), Err(AsmError::Malformed));
    let f = func(vec![], vec![vec![3]]);
    assert_eq!(listing(f), Err(AsmError::Malformed));
    let mut f = func(vec![], vec![vec![]]);
    f.layout.push(BlockId(7));
    assert_eq!(listing(f), Err(AsmError::Malformed));
}

#[test]
fn blocks_are_walked_in_layout_order() {
    let mut f = func(
        vec![
            ValueKind::Integer(1),
            ValueKind::Return(Some(ValueId(0))),
            ValueKind::Integer(2),
            ValueKind::Return(Some(ValueId(2))),
        ],
        vec![vec![1], vec![3]],
    );
    f.layout = vec![BlockId(1), BlockId(0)];
    assert_eq!(
        body(f),
        vec!["  addi sp, sp, -0", "  li a0, 2", "  ret", "  addi sp, sp, -0", "  li a0, 1", "  ret"]
    );
}

#[test]
fn block_outside_the_layout_is_not_emitted() {
    let mut f = func(
        vec![ValueKind::Return(None), ValueKind::Return(None)],
        vec![vec![0], vec![1]],
    );
    f.layout = vec![BlockId(0)];
    assert_eq!(body(f), vec!["  addi sp, sp, -0", "  ret"]);
}

fn num(n: i32) -> Exp {
    Exp::Number(n)
}

fn name(s: &str) -> Exp {
    Exp::LVal(s.to_string())
}

fn compile(items: Vec<BlockItem>) -> String {
    let unit = CompUnit {
        func_def: FuncDef { func_type: FuncType::Int, ident: "main".to_string(), block: Block { items } },
    };
    let program = unit.build().unwrap();
    Visitor::default().visit(&program).unwrap()
}

#[test]
fn folded_constant_compiles_to_immediate_load_and_ret() {
    let text = compile(vec![
        BlockItem::Decl(Decl::Const(ConstDecl {
            defs: vec![ConstDef {
                ident: "x".to_string(),
                value: Exp::Binary(
                    Box::new(num(1)),
                    BinOp::Add,
                    Box::new(Exp::Binary(Box::new(num(2)), BinOp::Mul, Box::new(num(3)))),
                ),
            }],
        })),
        BlockItem::Stmt(Stmt::Ret(Some(name("x")))),
    ]);
    assert_eq!(text, "  .text\n  .global main\nmain:\n  addi sp, sp, -0\n  li a0, 7\n  ret\n");
}

#[test]
fn end_to_end_conditional() {
    let var = |s: &str, n: i32| {
        BlockItem::Decl(Decl::Var(VarDecl { defs: vec![VarDef::InitVal(s.to_string(), num(n))] }))
    };
    let text = compile(vec![
        var("a", 1),
        var("b", 2),
        BlockItem::Stmt(Stmt::If(
            Exp::Binary(Box::new(name("a")), BinOp::Lt, Box::new(name("b"))),
            Box::new(Stmt::Block(Block {
                items: vec![BlockItem::Stmt(Stmt::Ret(Some(Exp::Binary(
                    Box::new(name("a")),
                    BinOp::Add,
                    Box::new(name("b")),
                ))))],
            })),
            Some(Box::new(Stmt::Block(Block {
                items: vec![BlockItem::Stmt(Stmt::Ret(Some(num(0))))],
            }))),
        )),
    ]);
    let expected = "  .text
  .global main
main:
  addi sp, sp, -32
  li t0, 1
  sw t0, 0(sp)
  li t1, 2
  sw t1, 4(sp)
  sw t0, 8(sp)
  sw t1, 12(sp)
  slt a0, t0, t1
  sw a0, 16(sp)
  addi sp, sp, -16
  sw t0, 8(sp)
  lw t0, 0(sp)
  sw t0, 0(sp)
  sw t0, 0(sp)
  lw t0, 4(sp)
  sw t0, 4(sp)
  sw t0, 4(sp)
  sw t1, 12(sp)
  lw t1, 0(sp)
  sw a0, 16(sp)
  lw a0, 4(sp)
  add t0, t1, a0
  sw t0, 8(sp)
  sw a0, 4(sp)
  mv a0, t0
  ret
  addi sp, sp, -0
  sw a0, 8(sp)
  li a0, 0
  ret
";
    assert_eq!(text, expected);
    let frames: Vec<usize> = text
        .lines()
        .enumerate()
        .filter(|(_, l)| l.starts_with("  addi sp"))
        .map(|(i, _)| i)
        .collect();
    assert_eq!(frames.len(), 3);
    let lines: Vec<&str> = text.lines().collect();
    let then_arm = &lines[frames[1]..frames[2]];
    let else_arm = &lines[frames[2]..];
    assert!(lines[frames[0]..frames[1]].iter().any(|l| l.starts_with("  slt ")));
    let add = then_arm.iter().position(|l| l.starts_with("  add ")).unwrap();
    let mv = then_arm.iter().position(|l| l.starts_with("  mv a0, ")).unwrap();
    assert!(add < mv);
    assert_eq!(then_arm.last(), Some(&"  ret"));
    assert_eq!(&else_arm[else_arm.len() - 2..], ["  li a0, 0", "  ret"]);
    let mnemonics = [
        "li", "mv", "lw", "sw", "add", "sub", "mul", "div", "rem", "and", "or", "slt", "seqz",
        "snez", "ret", "addi",
    ];
    for l in &lines[3..] {
        assert!(l.starts_with("  "));
        let m = l.trim_start().split(' ').next().unwrap();
        assert!(mnemonics.contains(&m), "unexpected mnemonic {}", m);
    }
}

fn var(s: &str, e: Exp) -> BlockItem {
    BlockItem::Decl(Decl::Var(VarDecl { defs: vec![VarDef::InitVal(s.to_string(), e)] }))
}

fn when(c: Exp, then: Vec<BlockItem>, other: Option<Vec<BlockItem>>) -> BlockItem {
    BlockItem::Stmt(Stmt::If(
        c,
        Box::new(Stmt::Block(Block { items: then })),
        other.map(|items| Box::new(Stmt::Block(Block { items }))),
    ))
}

#[test]
fn built_programs_are_never_malformed() {
    let ret = |e: Exp| BlockItem::Stmt(Stmt::Ret(Some(e)));
    let set = |s: &str, e: Exp| BlockItem::Stmt(Stmt::Assign(s.to_string(), e));
    let lt = |a: Exp, b: Exp| Exp::Binary(Box::new(a), BinOp::Lt, Box::new(b));
    let add = |a: Exp, b: Exp| Exp::Binary(Box::new(a), BinOp::Add, Box::new(b));
    let programs: Vec<Vec<BlockItem>> = vec![
        vec![],
        vec![ret(num(0))],
        vec![var("a", num(1)), ret(add(name("a"), name("a")))],
        vec![
            var("a", num(1)),
            var("b", Exp::LOr(Box::new(name("a")), Box::new(lt(name("a"), num(3))))),
            when(
                Exp::LAnd(Box::new(name("b")), Box::new(name("a"))),
                vec![set("a", add(name("a"), name("b")))],
                None,
            ),
            ret(name("a")),
        ],
        vec![
            var("a", num(1)),
            when(
                name("a"),
                vec![
                    var("c", add(name("a"), num(2))),
                    when(name("c"), vec![ret(name("c"))], Some(vec![set("a", name("c"))])),
                ],
                Some(vec![ret(num(4))]),
            ),
            ret(name("a")),
            ret(add(name("a"), num(1))),
        ],
    ];
    for items in programs {
        let unit = CompUnit {
            func_def: FuncDef { func_type: FuncType::Int, ident: "main".to_string(), block: Block { items } },
        };
        let program = unit.build().unwrap();
        assert!(program.funcs[0].is_well_formed());
        let text = Visitor::default().visit(&program).unwrap();
        assert!(text.starts_with("  .text\n  .global main\nmain:\n"));
    }
}

#[test]
fn large_built_program_overflows_the_frame_and_is_not_malformed() {
    let items: Vec<BlockItem> = (0..600).map(|i| var(&format!("v{}", i), num(i))).collect();
    let unit = CompUnit {
        func_def: FuncDef { func_type: FuncType::Int, ident: "main".to_string(), block: Block { items } },
    };
    let program = unit.build().unwrap();
    assert_eq!(Visitor::default().visit(&program), Err(AsmError::FrameOverflow));
}

#[test]
fn operand_from_a_later_block_is_malformed() {
    let f = func(
        vec![
            ValueKind::Alloc,
            ValueKind::Load(ValueId(0)),
            ValueKind::Jump(BlockId(1)),
            ValueKind::Return(Some(ValueId(1))),
        ],
        vec![vec![1, 2], vec![0, 3]],
    );
    assert!(f.is_well_formed());
    assert_eq!(listing(f), Err(AsmError::Malformed));
}
