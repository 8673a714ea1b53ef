use vstd::prelude::*;

verus! {

/// What an instruction word asks for. Every 16-bit word names exactly one of
/// these; a word that fits no instruction pattern is `Unknown` and does nothing.
#[derive(Clone, Copy, Debug, PartialEq, Eq, Structural)]
pub enum Operation {
    ClearDisplay,
    Return,
    Jump,
    Call,
    SkipIfEqualImmediate,
    SkipIfNotEqualImmediate,
    SkipIfEqualRegister,
    LoadImmediate,
    AddImmediate,
    Copy,
    Or,
    And,
    Xor,
    Add,
    Subtract,
    ShiftRight,
    SubtractReversed,
    ShiftLeft,
    SkipIfNotEqualRegister,
    SetIndex,
    JumpOffset,
    Random,
    Draw,
    SkipIfKey,
    SkipIfNotKey,
    ReadDelay,
    WaitKey,
    SetDelay,
    SetSound,
    AddIndex,
    FontGlyph,
    Decimal,
    DumpRegisters,
    LoadRegisters,
    Unknown,
}

/// Operation family: the highest of the four nibbles of an instruction word.
pub open spec fn family(op: u16) -> int {
    op as int / 4096
}

/// Register operand X: the second nibble.
pub open spec fn reg_x(op: u16) -> int {
    (op as int / 256) % 16
}

/// Register operand Y: the third nibble.
pub open spec fn reg_y(op: u16) -> int {
    (op as int / 16) % 16
}

/// Four-bit immediate: the lowest nibble.
pub open spec fn nibble(op: u16) -> int {
    op as int % 16
}

/// Eight-bit immediate: the low byte.
pub open spec fn low_byte(op: u16) -> u8 {
    (op as int % 256) as u8
}

/// Twelve-bit address operand.
pub open spec fn address(op: u16) -> u16 {
    (op as int % 4096) as u16
}

/// The instruction word made of two consecutive memory bytes, high byte first.
pub open spec fn word(high: u8, low: u8) -> u16 {
    (high as int * 256 + low as int) as u16
}

/// The operation of family 8 (register arithmetic) selected by the low nibble.
pub open spec fn decode_arithmetic(n: int) -> Operation {
    if n == 0x0 {
        Operation::Copy
    } else if n == 0x1 {
        Operation::Or
    } else if n == 0x2 {
        Operation::And
    } else if n == 0x3 {
        Operation::Xor
    } else if n == 0x4 {
        Operation::Add
    } else if n == 0x5 {
        Operation::Subtract
    } else if n == 0x6 {
        Operation::ShiftRight
    } else if n == 0x7 {
        Operation::SubtractReversed
    } else if n == 0xE {
        Operation::ShiftLeft
    } else {
        Operation::Unknown
    }
}

/// The operation of family F (timers, keys, memory) selected by the low byte.
pub open spec fn decode_system(kk: int) -> Operation {
    if kk == 0x07 {
        Operation::ReadDelay
    } else if kk == 0x0A {
        Operation::WaitKey
    } else if kk == 0x15 {
        Operation::SetDelay
    } else if kk == 0x18 {
        Operation::SetSound
    } else if kk == 0x1E {
        Operation::AddIndex
    } else if kk == 0x29 {
        Operation::FontGlyph
    } else if kk == 0x33 {
        Operation::Decimal
    } else if kk == 0x55 {
        Operation::DumpRegisters
    } else if kk == 0x65 {
        Operation::LoadRegisters
    } else {
        Operation::Unknown
    }
}

/// The operation that an instruction word names.
pub open spec fn decode(op: u16) -> Operation {
    let f = family(op);
    let n = nibble(op);
    let kk = low_byte(op) as int;
    if op == 0x00E0 {
        Operation::ClearDisplay
    } else if op == 0x00EE {
        Operation::Return
    } else if f == 0x1 {
        Operation::Jump
    } else if f == 0x2 {
        Operation::Call
    } else if f == 0x3 {
        Operation::SkipIfEqualImmediate
    } else if f == 0x4 {
        Operation::SkipIfNotEqualImmediate
    } else if f == 0x5 && n == 0 {
        Operation::SkipIfEqualRegister
    } else if f == 0x6 {
        Operation::LoadImmediate
    } else if f == 0x7 {
        Operation::AddImmediate
    } else if f == 0x8 {
        decode_arithmetic(n)
    } else if f == 0x9 && n == 0 {
        Operation::SkipIfNotEqualRegister
    } else if f == 0xA {
        Operation::SetIndex
    } else if f == 0xB {
        Operation::JumpOffset
    } else if f == 0xC {
        Operation::Random
    } else if f == 0xD {
        Operation::Draw
    } else if f == 0xE && kk == 0x9E {
        Operation::SkipIfKey
    } else if f == 0xE && kk == 0xA1 {
        Operation::SkipIfNotKey
    } else if f == 0xF {
        decode_system(kk)
    } else {
        Operation::Unknown
    }
}

/// How masking and shifting an instruction word relate to its nibbles.
proof fn lemma_fields(op: u16)
    by (bit_vector)
    ensures
        (op & 0x0f00) >> 8 == (op / 256) % 16,
        (op & 0x00f0) >> 4 == (op / 16) % 16,
        op & 0x000f == op % 16,
        op & 0x00ff == op % 256,
        op & 0x0fff == op % 4096,
        op & 0xf000 == (op / 4096) * 4096,
        op & 0xf00f == (op / 4096) * 4096 + op % 16,
        op & 0xf0ff == (op / 4096) * 4096 + op % 256,
{
}

/// How two bytes combine into an instruction word.
proof fn lemma_word(high: u8, low: u8)
    by (bit_vector)
    ensures
        (high as u16) << 8 | (low as u16) == (high as u16) * 256 + (low as u16),
{
}

pub(crate) fn make_word(high: u8, low: u8) -> (op: u16)
    ensures
        op == word(high, low),
{
    proof {
        lemma_word(high, low);
    }
    (high as u16) << 8 | (low as u16)
}

pub(crate) fn x_of(op: u16) -> (x: usize)
    ensures
        x == reg_x(op),
        x < 16,
{
    proof {
        lemma_fields(op);
    }
    ((op & 0xf00) >> 8) as usize
}

pub(crate) fn y_of(op: u16) -> (y: usize)
    ensures
        y == reg_y(op),
        y < 16,
{
    proof {
        lemma_fields(op);
    }
    ((op & 0x0f0) >> 4) as usize
}

pub(crate) fn n_of(op: u16) -> (n: u8)
    ensures
        n == nibble(op),
        n < 16,
{
    proof {
        lemma_fields(op);
    }
    (op & 0x0f) as u8
}

pub(crate) fn kk_of(op: u16) -> (kk: u8)
    ensures
        kk == low_byte(op),
{
    proof {
        lemma_fields(op);
    }
    (op & 0xff) as u8
}

pub(crate) fn nnn_of(op: u16) -> (nnn: u16)
    ensures
        nnn == address(op),
        nnn < 4096,
{
    proof {
        lemma_fields(op);
    }
    op & 0x0fff
}

/// Classifies an instruction word by the first pattern it fits, in the fixed
/// order of the instruction table.
pub fn decode_word(op: u16) -> (operation: Operation)
    ensures
        operation == decode(op),
{
    proof {
        lemma_fields(op);
    }
    if op == 0x00e0 {
        Operation::ClearDisplay
    } else if op == 0x00ee {
        Operation::Return
    } else if op & 0xf000 == 0x1000 {
        Operation::Jump
    } else if op & 0xf000 == 0x2000 {
        Operation::Call
    } else if op & 0xf000 == 0x3000 {
        Operation::SkipIfEqualImmediate
    } else if op & 0xf000 == 0x4000 {
        Operation::SkipIfNotEqualImmediate
    } else if op & 0xf00f == 0x5000 {
        Operation::SkipIfEqualRegister
    } else if op & 0xf000 == 0x6000 {
        Operation::LoadImmediate
    } else if op & 0xf000 == 0x7000 {
        Operation::AddImmediate
    } else if op & 0xf00f == 0x8000 {
        Operation::Copy
    } else if op & 0xf00f == 0x8001 {
        Operation::Or
    } else if op & 0xf00f == 0x8002 {
        Operation::And
    } else if op & 0xf00f == 0x8003 {
        Operation::Xor
    } else if op & 0xf00f == 0x8004 {
        Operation::Add
    } else if op & 0xf00f == 0x8005 {
        Operation::Subtract
    } else if op & 0xf00f == 0x8006 {
        Operation::ShiftRight
    } else if op & 0xf00f == 0x8007 {
        Operation::SubtractReversed
    } else if op & 0xf00f == 0x800e {
        Operation::ShiftLeft
    } else if op & 0xf00f == 0x9000 {
        Operation::SkipIfNotEqualRegister
    } else if op & 0xf000 == 0xa000 {
        Operation::SetIndex
    } else if op & 0xf000 == 0xb000 {
        Operation::JumpOffset
    } else if op & 0xf000 == 0xc000 {
        Operation::Random
    } else if op & 0xf000 == 0xd000 {
        Operation::Draw
    } else if op & 0xf0ff == 0xe09e {
        Operation::SkipIfKey
    } else if op & 0xf0ff == 0xe0a1 {
        Operation::SkipIfNotKey
    } else if op & 0xf0ff == 0xf007 {
        Operation::ReadDelay
    } else if op & 0xf0ff == 0xf00a {
        Operation::WaitKey
    } else if op & 0xf0ff == 0xf015 {
        Operation::SetDelay
    } else if op & 0xf0ff == 0xf018 {
        Operation::SetSound
    } else if op & 0xf0ff == 0xf01e {
        Operation::AddIndex
    } else if op & 0xf0ff == 0xf029 {
        Operation::FontGlyph
    } else if op & 0xf0ff == 0xf033 {
        Operation::Decimal
    } else if op & 0xf0ff == 0xf055 {
        Operation::DumpRegisters
    } else if op & 0xf0ff == 0xf065 {
        Operation::LoadRegisters
    } else {
        Operation::Unknown
    }
}

} // verus!
