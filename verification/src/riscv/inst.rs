//! The lines of an assembly listing and their text.

use vstd::prelude::*;
use vstd::string::StringExecFns;
use crate::text::{decimal_i32, decimal_int, decimal_nat, decimal_u64};

verus! {

/// Number of a register.
pub type Reg = u8;

/// The register that is always zero. It is never allocated.
pub const X0: Reg = 0;

/// First scratch register.
pub const T0: Reg = 1;

/// Second scratch register.
pub const T1: Reg = 2;

/// The register that holds a function's result.
pub const A0: Reg = 15;

/// Whether the number is that of a register of the file.
pub open spec fn is_reg(r: Reg) -> bool {
    r == X0 || r == T0 || r == T1 || r == A0
}

/// The name of a register of the file in assembly text.
pub open spec fn reg_name(r: Reg) -> Seq<char>
    recommends
        is_reg(r),
{
    if r == X0 {
        "x0"@
    } else if r == T0 {
        "t0"@
    } else if r == T1 {
        "t1"@
    } else {
        "a0"@
    }
}

/// The name of a register in assembly text.
pub fn reg_str(r: Reg) -> (s: &'static str)
    ensures
        s@ == reg_name(r),
{
    if r == X0 {
        "x0"
    } else if r == T0 {
        "t0"
    } else if r == T1 {
        "t1"
    } else {
        "a0"
    }
}

/// Instructions with a destination and two source registers.
#[derive(Clone, Copy, Debug, PartialEq, Eq, Structural)]
pub enum Opcode {
    Add,
    Sub,
    Mul,
    Div,
    Rem,
    And,
    Or,
    Slt,
}

/// The mnemonic of an instruction with three registers.
pub open spec fn mnemonic(op: Opcode) -> Seq<char> {
    match op {
        Opcode::Add => "add"@,
        Opcode::Sub => "sub"@,
        Opcode::Mul => "mul"@,
        Opcode::Div => "div"@,
        Opcode::Rem => "rem"@,
        Opcode::And => "and"@,
        Opcode::Or => "or"@,
        Opcode::Slt => "slt"@,
    }
}

/// One line of a listing.
#[derive(Debug)]
pub enum Asm {
    /// Directive that opens the text section.
    Text,
    /// Directive that exports a symbol.
    Global(String),
    /// Label of a function.
    Label(String),
    /// Lowers the stack pointer by so many bytes.
    Frame(u32),
    /// Loads an immediate into a register.
    Li(Reg, i32),
    /// Copies the second register to the first.
    Mv(Reg, Reg),
    /// Loads the word at an offset from the stack pointer.
    Lw(Reg, u32),
    /// Stores a register at an offset from the stack pointer.
    Sw(Reg, u32),
    /// Destination, first source, second source.
    Op(Opcode, Reg, Reg, Reg),
    /// Sets the first register to whether the second is zero.
    Seqz(Reg, Reg),
    /// Sets the first register to whether the second is not zero.
    Snez(Reg, Reg),
    /// Returns from the function.
    Ret,
}

impl Asm {
    /// The text of the line, without the line break. Instructions are
    /// indented by two spaces; operands are separated by a comma and a space.
    pub open spec fn text(self) -> Seq<char> {
        match self {
            Asm::Text => "  .text"@,
            Asm::Global(name) => "  .global "@ + name@,
            Asm::Label(name) => name@ + ":"@,
            Asm::Frame(n) => "  addi sp, sp, -"@ + decimal_nat(n as nat),
            Asm::Li(rd, imm) => "  li "@ + reg_name(rd) + ", "@ + decimal_int(imm as int),
            Asm::Mv(rd, rs) => "  mv "@ + reg_name(rd) + ", "@ + reg_name(rs),
            Asm::Lw(rd, off) => "  lw "@ + reg_name(rd) + ", "@ + decimal_nat(off as nat)
                + "(sp)"@,
            Asm::Sw(rs, off) => "  sw "@ + reg_name(rs) + ", "@ + decimal_nat(off as nat)
                + "(sp)"@,
            Asm::Op(op, rd, a, b) => "  "@ + mnemonic(op) + " "@ + reg_name(rd) + ", "@
                + reg_name(a) + ", "@ + reg_name(b),
            Asm::Seqz(rd, rs) => "  seqz "@ + reg_name(rd) + ", "@ + reg_name(rs),
            Asm::Snez(rd, rs) => "  snez "@ + reg_name(rd) + ", "@ + reg_name(rs),
            Asm::Ret => "  ret"@,
        }
    }

    /// Renders the line, without the line break.
    pub fn render(&self) -> (s: String)
        ensures
            s@ == self.text(),
    {
        match self {
            Asm::Text => String::from_str("  .text"),
            Asm::Global(name) => {
                let mut s = String::from_str("  .global ");
                s.append(name.as_str());
                s
            },
            Asm::Label(name) => {
                let mut s = name.clone();
                s.append(":");
                s
            },
            Asm::Frame(n) => {
                let mut s = String::from_str("  addi sp, sp, -");
                s.append(decimal_u64(*n as u64).as_str());
                s
            },
            Asm::Li(rd, imm) => {
                let mut s = String::from_str("  li ");
                s.append(reg_str(*rd));
                s.append(", ");
                s.append(decimal_i32(*imm).as_str());
                s
            },
            Asm::Mv(rd, rs) => two_regs("  mv ", *rd, *rs),
            Asm::Lw(rd, off) => stack_access("  lw ", *rd, *off),
            Asm::Sw(rs, off) => stack_access("  sw ", *rs, *off),
            Asm::Op(op, rd, a, b) => {
                let mut s = String::from_str("  ");
                s.append(
                    match op {
                        Opcode::Add => "add",
                        Opcode::Sub => "sub",
                        Opcode::Mul => "mul",
                        Opcode::Div => "div",
                        Opcode::Rem => "rem",
                        Opcode::And => "and",
                        Opcode::Or => "or",
                        Opcode::Slt => "slt",
                    },
                );
                s.append(" ");
                s.append(reg_str(*rd));
                s.append(", ");
                s.append(reg_str(*a));
                s.append(", ");
                s.append(reg_str(*b));
                s
            },
            Asm::Seqz(rd, rs) => two_regs("  seqz ", *rd, *rs),
            Asm::Snez(rd, rs) => two_regs("  snez ", *rd, *rs),
            Asm::Ret => String::from_str("  ret"),
        }
    }
}

/// A line with a mnemonic and two registers.
fn two_regs(head: &str, rd: Reg, rs: Reg) -> (s: String)
    ensures
        s@ == head@ + reg_name(rd) + ", "@ + reg_name(rs),
{
    let mut s = String::from_str(head);
    s.append(reg_str(rd));
    s.append(", ");
    s.append(reg_str(rs));
    s
}

/// A line with a mnemonic, a register and an offset from the stack pointer.
fn stack_access(head: &str, r: Reg, off: u32) -> (s: String)
    ensures
        s@ == head@ + reg_name(r) + ", "@ + decimal_nat(off as nat) + "(sp)"@,
{
    let mut s = String::from_str(head);
    s.append(reg_str(r));
    s.append(", ");
    s.append(decimal_u64(off as u64).as_str());
    s.append("(sp)");
    s
}

/// The text of a listing: each line followed by a line break.
pub open spec fn listing_text(lines: Seq<Asm>) -> Seq<char>
    decreases lines.len(),
{
    if lines.len() == 0 {
        Seq::empty()
    } else {
        listing_text(lines.drop_last()) + lines.last().text() + "\n"@
    }
}

/// Renders a listing.
pub fn render_listing(lines: &Vec<Asm>) -> (s: String)
    ensures
        s@ == listing_text(lines@),
{
    let mut s = String::new();
    let mut i: usize = 0;
    while i < lines.len()
        invariant
            i <= lines.len(),
            s@ == listing_text(lines@.take(i as int)),
        decreases lines.len() - i,
    {
        let line = lines[i].render();
        s.append(line.as_str());
        s.append("\n");
        proof {
            assert(lines@.take(i + 1).drop_last() =~= lines@.take(i as int));
        }
        i += 1;
    }
    proof {
        assert(lines@.take(lines.len() as int) =~= lines@);
    }
    s
}

} // verus!
