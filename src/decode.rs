//! Splitting a 32-bit instruction word ("platter") into its fields.
use vstd::prelude::*;

verus! {

/// Bits 31..28: the operation number.
pub open spec fn opcode_of(p: u32) -> int {
    p as int / 0x1000_0000
}

/// Bits 8..6: register selector A.
pub open spec fn field_a(p: u32) -> int {
    (p as int / 64) % 8
}

/// Bits 5..3: register selector B.
pub open spec fn field_b(p: u32) -> int {
    (p as int / 8) % 8
}

/// Bits 2..0: register selector C.
pub open spec fn field_c(p: u32) -> int {
    p as int % 8
}

/// Bits 27..25: the destination selector of the immediate-load form.
pub open spec fn field_dest(p: u32) -> int {
    (p as int / 0x200_0000) % 8
}

/// Bits 24..0: the immediate value of the immediate-load form.
pub open spec fn field_imm(p: u32) -> int {
    p as int % 0x200_0000
}

/// Extracts the operation number (bits 31..28).
pub fn op_code(p: u32) -> (r: u8)
    ensures
        r as int == opcode_of(p),
        r < 16,
{
    assert((p >> 28u32) as int == p as int / 0x1000_0000 && (p >> 28u32) < 16) by (bit_vector);
    (p >> 28u32) as u8
}

/// Extracts register selector A (bits 8..6).
pub fn rega_offset(p: u32) -> (r: usize)
    ensures
        r as int == field_a(p),
        r < 8,
{
    assert(((p >> 6u32) & 7) as int == (p as int / 64) % 8 && (p >> 6u32) & 7 < 8) by (bit_vector);
    ((p >> 6u32) & 7) as usize
}

/// Extracts register selector B (bits 5..3).
pub fn regb_offset(p: u32) -> (r: usize)
    ensures
        r as int == field_b(p),
        r < 8,
{
    assert(((p >> 3u32) & 7) as int == (p as int / 8) % 8 && (p >> 3u32) & 7 < 8) by (bit_vector);
    ((p >> 3u32) & 7) as usize
}

/// Extracts register selector C (bits 2..0).
pub fn regc_offset(p: u32) -> (r: usize)
    ensures
        r as int == field_c(p),
        r < 8,
{
    assert((p & 7) as int == p as int % 8 && p & 7 < 8) by (bit_vector);
    (p & 7) as usize
}

/// Extracts the destination selector of the immediate-load form (bits 27..25).
pub fn rego_offset(p: u32) -> (r: usize)
    ensures
        r as int == field_dest(p),
        r < 8,
{
    assert(((p >> 25u32) & 7) as int == (p as int / 0x200_0000) % 8 && (p >> 25u32) & 7 < 8)
        by (bit_vector);
    ((p >> 25u32) & 7) as usize
}

/// Extracts the 25-bit immediate value of the immediate-load form (bits 24..0).
pub fn rego_value(p: u32) -> (r: u32)
    ensures
        r as int == field_imm(p),
        r < 0x200_0000,
{
    assert((p & 0x1ff_ffff) as int == p as int % 0x200_0000 && p & 0x1ff_ffff < 0x200_0000)
        by (bit_vector);
    p & 0x1ff_ffff
}

/// One decoded instruction: one case per operation, and one for the two
/// unassigned operation numbers. Register selectors are below 8.
#[derive(PartialEq, Eq, Structural, Clone, Copy, Debug)]
pub enum Instruction {
    ConditionalMove { a: usize, b: usize, c: usize },
    ArrayIndex { a: usize, b: usize, c: usize },
    ArrayAmendment { a: usize, b: usize, c: usize },
    Addition { a: usize, b: usize, c: usize },
    Multiplication { a: usize, b: usize, c: usize },
    Division { a: usize, b: usize, c: usize },
    Nand { a: usize, b: usize, c: usize },
    Halt,
    Allocation { b: usize, c: usize },
    Abandonment { c: usize },
    Output { c: usize },
    Input { c: usize },
    LoadProgram { b: usize, c: usize },
    Orthography { dest: usize, value: u32 },
    Unsupported { opcode: u8 },
}

/// The instruction that a word stands for.
pub open spec fn decoded(p: u32) -> Instruction {
    let op = opcode_of(p);
    let a = field_a(p) as usize;
    let b = field_b(p) as usize;
    let c = field_c(p) as usize;
    if op == 0 {
        Instruction::ConditionalMove { a, b, c }
    } else if op == 1 {
        Instruction::ArrayIndex { a, b, c }
    } else if op == 2 {
        Instruction::ArrayAmendment { a, b, c }
    } else if op == 3 {
        Instruction::Addition { a, b, c }
    } else if op == 4 {
        Instruction::Multiplication { a, b, c }
    } else if op == 5 {
        Instruction::Division { a, b, c }
    } else if op == 6 {
        Instruction::Nand { a, b, c }
    } else if op == 7 {
        Instruction::Halt
    } else if op == 8 {
        Instruction::Allocation { b, c }
    } else if op == 9 {
        Instruction::Abandonment { c }
    } else if op == 10 {
        Instruction::Output { c }
    } else if op == 11 {
        Instruction::Input { c }
    } else if op == 12 {
        Instruction::LoadProgram { b, c }
    } else if op == 13 {
        Instruction::Orthography { dest: field_dest(p) as usize, value: field_imm(p) as u32 }
    } else {
        Instruction::Unsupported { opcode: op as u8 }
    }
}

/// Decodes any 32-bit word; decoding never fails.
pub fn decode(p: u32) -> (r: Instruction)
    ensures
        r == decoded(p),
{
    let op = op_code(p);
    let a = rega_offset(p);
    let b = regb_offset(p);
    let c = regc_offset(p);
    match op {
        0 => Instruction::ConditionalMove { a, b, c },
        1 => Instruction::ArrayIndex { a, b, c },
        2 => Instruction::ArrayAmendment { a, b, c },
        3 => Instruction::Addition { a, b, c },
        4 => Instruction::Multiplication { a, b, c },
        5 => Instruction::Division { a, b, c },
        6 => Instruction::Nand { a, b, c },
        7 => Instruction::Halt,
        8 => Instruction::Allocation { b, c },
        9 => Instruction::Abandonment { c },
        10 => Instruction::Output { c },
        11 => Instruction::Input { c },
        12 => Instruction::LoadProgram { b, c },
        13 => Instruction::Orthography { dest: rego_offset(p), value: rego_value(p) },
        _ => Instruction::Unsupported { opcode: op },
    }
}

/// Decoding depends on the operation number and the three selector fields
/// alone: two standard-form words that agree on bits 31..28 and 8..0 decode
/// to the same instruction, whatever their other bits hold.
pub proof fn lemma_decode_ignores_unused_bits(p: u32, q: u32)
    requires
        opcode_of(p) != 13,
        p & 0xf000_01ff == q & 0xf000_01ff,
    ensures
        decoded(p) == decoded(q),
        opcode_of(p) == opcode_of(q),
        field_a(p) == field_a(q),
        field_b(p) == field_b(q),
        field_c(p) == field_c(q),
{
    assert(p & 0xf000_01ff == q & 0xf000_01ff ==> p as int / 0x1000_0000 == q as int / 0x1000_0000
        && (p as int / 64) % 8 == (q as int / 64) % 8 && (p as int / 8) % 8 == (q as int / 8) % 8
        && p as int % 8 == q as int % 8) by (bit_vector);
}

/// In the immediate-load form the destination is bits 27..25 and the value is
/// bits 24..0; the standard selector fields play no part.
pub proof fn lemma_orthography_fields(p: u32)
    requires
        opcode_of(p) == 13,
    ensures
        decoded(p) == (Instruction::Orthography {
            dest: field_dest(p) as usize,
            value: field_imm(p) as u32,
        }),
        0 <= field_dest(p) < 8,
        0 <= field_imm(p) < 0x200_0000,
{
}

} // verus!
