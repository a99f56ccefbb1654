//! Labels of basic blocks: a tag that says what the block is for, and the
//! block's serial number, which makes the label unique in its function.

use vstd::prelude::*;
use vstd::string::StringExecFns;
use crate::ir::entities::FuncModel;
use crate::text::{decimal_nat, decimal_u64, law_decimal_injective, lemma_decimal_digits};

verus! {

/// What a synthesized block is for; the first part of its label.
#[derive(Clone, Copy, Debug, PartialEq, Eq, Structural)]
pub enum BlockTag {
    /// Entry block of the function.
    Main,
    /// True arm of a conditional.
    If,
    /// False arm of a conditional.
    Else,
    /// Where the arms of a conditional meet.
    IfEnd,
    /// Right operand of a logical or.
    OrR,
    /// Where the operands of a logical or meet.
    OrEnd,
    /// Right operand of a logical and.
    AndR,
    /// Where the operands of a logical and meet.
    AndEnd,
    /// Code that follows a return.
    Ret,
}

/// The text of a tag.
pub open spec fn tag_text(tag: BlockTag) -> Seq<char> {
    match tag {
        BlockTag::Main => "main"@,
        BlockTag::If => "if"@,
        BlockTag::Else => "else"@,
        BlockTag::IfEnd => "if_end"@,
        BlockTag::OrR => "or_r"@,
        BlockTag::OrEnd => "or_end"@,
        BlockTag::AndR => "and_r"@,
        BlockTag::AndEnd => "and_end"@,
        BlockTag::Ret => "ret"@,
    }
}

/// The label of a block: a sigil, the tag, and the block's serial number,
/// which no other block of the function has.
pub open spec fn label_text(tag: BlockTag, serial: nat) -> Seq<char> {
    "%"@ + tag_text(tag) + "_"@ + decimal_nat(serial)
}

/// Whether a text is the label of the block with that serial number.
pub open spec fn is_label(name: Seq<char>, serial: nat) -> bool {
    exists|tag: BlockTag| name == label_text(tag, serial)
}

/// Every block of the function is labelled with its position in the arena.
pub open spec fn labelled(func: FuncModel) -> bool {
    forall|b: int| 0 <= b < func.bbs.len() ==> is_label((#[trigger] func.bbs[b]).name, b as nat)
}

/// A label starts with the sigil of a local name and has at least one more
/// character.
pub proof fn lemma_label_shape(tag: BlockTag, serial: nat)
    ensures
        label_text(tag, serial).len() > 1,
        label_text(tag, serial)[0] == '%',
{
    reveal_strlit("%");
    reveal_strlit("_");
}

/// Blocks with different serial numbers have different labels, whatever
/// their tags.
pub proof fn law_labels_differ(tag1: BlockTag, serial1: nat, tag2: BlockTag, serial2: nat)
    requires
        serial1 != serial2,
    ensures
        label_text(tag1, serial1) != label_text(tag2, serial2),
{
    let d1 = decimal_nat(serial1);
    let d2 = decimal_nat(serial2);
    let h1 = "%"@ + tag_text(tag1) + "_"@;
    let h2 = "%"@ + tag_text(tag2) + "_"@;
    let l1 = label_text(tag1, serial1);
    let l2 = label_text(tag2, serial2);
    reveal_strlit("_");
    lemma_decimal_digits(serial1);
    lemma_decimal_digits(serial2);
    assert(l1 =~= h1 + d1);
    assert(l2 =~= h2 + d2);
    if l1 == l2 {
        if d1.len() < d2.len() {
            // the character before the digits of the first is inside the digits of the second
            let i = h1.len() - 1;
            assert(l1[i] == '_');
            assert(l2[i] == d2[i - h2.len()]);
        } else if d2.len() < d1.len() {
            let i = h2.len() - 1;
            assert(l2[i] == '_');
            assert(l1[i] == d1[i - h1.len()]);
        } else {
            assert forall|i: int| 0 <= i < d1.len() implies d1[i] == d2[i] by {
                assert(l1[h1.len() + i] == d1[i]);
                assert(l2[h2.len() + i] == d2[i]);
            }
            assert(d1 =~= d2);
            law_decimal_injective(serial1, serial2);
        }
    }
}

/// In a function whose blocks are labelled, no two blocks have the same
/// label.
pub proof fn law_labels_unique(func: FuncModel, a: int, b: int)
    requires
        labelled(func),
        0 <= a < func.bbs.len(),
        0 <= b < func.bbs.len(),
        a != b,
    ensures
        func.bbs[a].name != func.bbs[b].name,
{
    let n1 = a as nat;
    let n2 = b as nat;
    let t1 = choose|tag: BlockTag| func.bbs[a].name == label_text(tag, n1);
    let t2 = choose|tag: BlockTag| func.bbs[b].name == label_text(tag, n2);
    law_labels_differ(t1, n1, t2, n2);
}

/// A text that is a label has the shape of one.
pub proof fn lemma_is_label_shape(name: Seq<char>, serial: nat)
    requires
        is_label(name, serial),
    ensures
        name.len() > 1,
        name[0] == '%',
{
    let tag = choose|tag: BlockTag| name == label_text(tag, serial);
    lemma_label_shape(tag, serial);
}

/// Renders the label of a block.
pub fn label(tag: BlockTag, serial: usize) -> (s: String)
    ensures
        s@ == label_text(tag, serial as nat),
{
    let mut s = String::from_str("%");
    s.append(
        match tag {
            BlockTag::Main => "main",
            BlockTag::If => "if",
            BlockTag::Else => "else",
            BlockTag::IfEnd => "if_end",
            BlockTag::OrR => "or_r",
            BlockTag::OrEnd => "or_end",
            BlockTag::AndR => "and_r",
            BlockTag::AndEnd => "and_end",
            BlockTag::Ret => "ret",
        },
    );
    s.append("_");
    let digits = decimal_u64(serial as u64);
    s.append(digits.as_str());
    s
}

} // verus!
