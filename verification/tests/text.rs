use lowering::ir::label::{label, BlockTag};
use lowering::riscv::inst::{render_listing, Asm, Opcode, A0, T0, T1, X0};
use lowering::text::{decimal_i32, decimal_u64};

#[test]
fn decimal_of_unsigned_numbers() {
    assert_eq!(decimal_u64(0), "0");
    assert_eq!(decimal_u64(7), "7");
    assert_eq!(decimal_u64(10), "10");
    assert_eq!(decimal_u64(2048), "2048");
    assert_eq!(decimal_u64(u64::MAX), "18446744073709551615");
}

#[test]
fn decimal_of_signed_numbers() {
    assert_eq!(decimal_i32(0), "0");
    assert_eq!(decimal_i32(-1), "-1");
    assert_eq!(decimal_i32(123), "123");
    assert_eq!(decimal_i32(i32::MAX), "2147483647");
    assert_eq!(decimal_i32(i32::MIN), "-2147483648");
}

#[test]
fn decimal_agrees_with_std_formatting() {
    for n in [0u64, 1, 9, 10, 11, 99, 100, 101, 4095, 65536, 999_999_999] {
        assert_eq!(decimal_u64(n), format!("{}", n));
    }
    for n in [-100i32, -99, -10, -9, -1, 0, 1, 9, 10, 99, 100] {
        assert_eq!(decimal_i32(n), format!("{}", n));
    }
}

#[test]
fn labels_are_sigil_tag_and_serial() {
    assert_eq!(label(BlockTag::Main, 0), "%main_0");
    assert_eq!(label(BlockTag::If, 1), "%if_1");
    assert_eq!(label(BlockTag::Else, 2), "%else_2");
    assert_eq!(label(BlockTag::IfEnd, 3), "%if_end_3");
    assert_eq!(label(BlockTag::OrR, 12), "%or_r_12");
    assert_eq!(label(BlockTag::OrEnd, 13), "%or_end_13");
    assert_eq!(label(BlockTag::AndR, 4), "%and_r_4");
    assert_eq!(label(BlockTag::AndEnd, 5), "%and_end_5");
    assert_eq!(label(BlockTag::Ret, 100), "%ret_100");
}

#[test]
fn each_line_renders_as_documented() {
    assert_eq!(Asm::Text.render(), "  .text");
    assert_eq!(Asm::Global("main".to_string()).render(), "  .global main");
    assert_eq!(Asm::Label("main".to_string()).render(), "main:");
    assert_eq!(Asm::Frame(32).render(), "  addi sp, sp, -32");
    assert_eq!(Asm::Frame(0).render(), "  addi sp, sp, -0");
    assert_eq!(Asm::Li(A0, 7).render(), "  li a0, 7");
    assert_eq!(Asm::Li(T0, -5).render(), "  li t0, -5");
    assert_eq!(Asm::Mv(A0, T1).render(), "  mv a0, t1");
    assert_eq!(Asm::Lw(T0, 8).render(), "  lw t0, 8(sp)");
    assert_eq!(Asm::Sw(T1, 12).render(), "  sw t1, 12(sp)");
    assert_eq!(Asm::Op(Opcode::Add, T0, T1, A0).render(), "  add t0, t1, a0");
    assert_eq!(Asm::Op(Opcode::Sub, T0, T1, A0).render(), "  sub t0, t1, a0");
    assert_eq!(Asm::Op(Opcode::Mul, T0, T1, A0).render(), "  mul t0, t1, a0");
    assert_eq!(Asm::Op(Opcode::Div, T0, T1, A0).render(), "  div t0, t1, a0");
    assert_eq!(Asm::Op(Opcode::Rem, T0, T1, A0).render(), "  rem t0, t1, a0");
    assert_eq!(Asm::Op(Opcode::And, T0, T1, A0).render(), "  and t0, t1, a0");
    assert_eq!(Asm::Op(Opcode::Or, T0, T1, A0).render(), "  or t0, t1, a0");
    assert_eq!(Asm::Op(Opcode::Slt, T0, X0, A0).render(), "  slt t0, x0, a0");
    assert_eq!(Asm::Seqz(T0, T0).render(), "  seqz t0, t0");
    assert_eq!(Asm::Snez(T1, T1).render(), "  snez t1, t1");
    assert_eq!(Asm::Ret.render(), "  ret");
}

#[test]
fn listing_has_one_line_per_entry() {
    assert_eq!(render_listing(&vec![]), "");
    let lines = vec![Asm::Text, Asm::Label("f".to_string()), Asm::Ret];
    assert_eq!(render_listing(&lines), "  .text\nf:\n  ret\n");
}
