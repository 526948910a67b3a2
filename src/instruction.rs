use vstd::prelude::*;
use crate::nibbles::{u16_from_nibbles_3, u8_from_nibbles_2};

verus! {

/// A decoded instruction. Register operands are indices into the register
/// file, addresses are 12-bit values, immediates are whole bytes.
#[derive(Clone, Copy, Debug, PartialEq, Eq, Structural)]
pub enum Instruction {
    ClearScreen,
    Return,
    MachineCall { addr: u16 },
    Jump { addr: u16 },
    Call { addr: u16 },
    SkipEqImm { x: u8, value: u8 },
    SkipNeImm { x: u8, value: u8 },
    SkipEqReg { x: u8, y: u8 },
    LoadImm { x: u8, value: u8 },
    AddImm { x: u8, value: u8 },
    Move { x: u8, y: u8 },
    Or { x: u8, y: u8 },
    And { x: u8, y: u8 },
    Xor { x: u8, y: u8 },
    AddCarry { x: u8, y: u8 },
    SubBorrow { x: u8, y: u8 },
    ShiftRight { x: u8, y: u8 },
    SubReverse { x: u8, y: u8 },
    ShiftLeft { x: u8, y: u8 },
    SkipNeReg { x: u8, y: u8 },
    SetAddr { addr: u16 },
    JumpOffset { addr: u16 },
    Random { x: u8, mask: u8 },
    Draw { x: u8, y: u8, n: u8 },
    SkipIfPressed { x: u8 },
    SkipIfNotPressed { x: u8 },
    ReadDelay { x: u8 },
    WaitForKey { x: u8 },
    SetDelay { x: u8 },
    SetSound { x: u8 },
    AddAddr { x: u8 },
    Glyph { x: u8 },
    Decimal { x: u8 },
    StoreRegs { x: u8 },
    LoadRegs { x: u8 },
}

impl Instruction {
    /// Address operands fit in 12 bits and sprite heights in one nibble.
    pub open spec fn well_formed(self) -> bool {
        match self {
            Instruction::MachineCall { addr } => addr < 4096,
            Instruction::Jump { addr } => addr < 4096,
            Instruction::Call { addr } => addr < 4096,
            Instruction::SetAddr { addr } => addr < 4096,
            Instruction::JumpOffset { addr } => addr < 4096,
            Instruction::Draw { n, .. } => n < 16,
            _ => true,
        }
    }
}

/// The four nibbles of an instruction word, most significant first.
pub open spec fn nibbles_of(w: u16) -> (u8, u8, u8, u8) {
    ((w / 4096) as u8, ((w / 256) % 16) as u8, ((w / 16) % 16) as u8, (w % 16) as u8)
}

pub open spec fn addr_of(b: u8, c: u8, d: u8) -> u16 {
    (b * 256 + c * 16 + d) as u16
}

pub open spec fn byte_of(c: u8, d: u8) -> u8 {
    (c * 16 + d) as u8
}

/// The instruction a word encodes, or `None` for an illegal word.
pub open spec fn decode_spec(w: u16) -> Option<Instruction> {
    let (a, b, c, d) = nibbles_of(w);
    match (a, b, c, d) {
        (0, 0, 0xE, 0) => Some(Instruction::ClearScreen),
        (0, 0, 0xE, 0xE) => Some(Instruction::Return),
        (0, _, _, _) => Some(Instruction::MachineCall { addr: addr_of(b, c, d) }),
        (1, _, _, _) => Some(Instruction::Jump { addr: addr_of(b, c, d) }),
        (2, _, _, _) => Some(Instruction::Call { addr: addr_of(b, c, d) }),
        (3, _, _, _) => Some(Instruction::SkipEqImm { x: b, value: byte_of(c, d) }),
        (4, _, _, _) => Some(Instruction::SkipNeImm { x: b, value: byte_of(c, d) }),
        (5, _, _, 0) => Some(Instruction::SkipEqReg { x: b, y: c }),
        (6, _, _, _) => Some(Instruction::LoadImm { x: b, value: byte_of(c, d) }),
        (7, _, _, _) => Some(Instruction::AddImm { x: b, value: byte_of(c, d) }),
        (8, _, _, 0) => Some(Instruction::Move { x: b, y: c }),
        (8, _, _, 1) => Some(Instruction::Or { x: b, y: c }),
        (8, _, _, 2) => Some(Instruction::And { x: b, y: c }),
        (8, _, _, 3) => Some(Instruction::Xor { x: b, y: c }),
        (8, _, _, 4) => Some(Instruction::AddCarry { x: b, y: c }),
        (8, _, _, 5) => Some(Instruction::SubBorrow { x: b, y: c }),
        (8, _, _, 6) => Some(Instruction::ShiftRight { x: b, y: c }),
        (8, _, _, 7) => Some(Instruction::SubReverse { x: b, y: c }),
        (8, _, _, 0xE) => Some(Instruction::ShiftLeft { x: b, y: c }),
        (9, _, _, 0) => Some(Instruction::SkipNeReg { x: b, y: c }),
        (0xA, _, _, _) => Some(Instruction::SetAddr { addr: addr_of(b, c, d) }),
        (0xB, _, _, _) => Some(Instruction::JumpOffset { addr: addr_of(b, c, d) }),
        (0xC, _, _, _) => Some(Instruction::Random { x: b, mask: byte_of(c, d) }),
        (0xD, _, _, _) => Some(Instruction::Draw { x: b, y: c, n: d }),
        (0xE, _, 9, 0xE) => Some(Instruction::SkipIfPressed { x: b }),
        (0xE, _, 0xA, 1) => Some(Instruction::SkipIfNotPressed { x: b }),
        (0xF, _, 0, 7) => Some(Instruction::ReadDelay { x: b }),
        (0xF, _, 0, 0xA) => Some(Instruction::WaitForKey { x: b }),
        (0xF, _, 1, 5) => Some(Instruction::SetDelay { x: b }),
        (0xF, _, 1, 8) => Some(Instruction::SetSound { x: b }),
        (0xF, _, 1, 0xE) => Some(Instruction::AddAddr { x: b }),
        (0xF, _, 2, 9) => Some(Instruction::Glyph { x: b }),
        (0xF, _, 3, 3) => Some(Instruction::Decimal { x: b }),
        (0xF, _, 5, 5) => Some(Instruction::StoreRegs { x: b }),
        (0xF, _, 6, 5) => Some(Instruction::LoadRegs { x: b }),
        _ => None,
    }
}

/// Register operands of a decoded instruction are nibbles, so always valid.
pub open spec fn registers_in_range(ins: Instruction) -> bool {
    match ins {
        Instruction::SkipEqImm { x, .. } | Instruction::SkipNeImm { x, .. }
        | Instruction::LoadImm { x, .. } | Instruction::AddImm { x, .. }
        | Instruction::Random { x, .. } | Instruction::SkipIfPressed { x }
        | Instruction::SkipIfNotPressed { x } | Instruction::ReadDelay { x }
        | Instruction::WaitForKey { x } | Instruction::SetDelay { x }
        | Instruction::SetSound { x } | Instruction::AddAddr { x }
        | Instruction::Glyph { x } | Instruction::Decimal { x }
        | Instruction::StoreRegs { x } | Instruction::LoadRegs { x } => x < 16,
        Instruction::SkipEqReg { x, y } | Instruction::Move { x, y }
        | Instruction::Or { x, y } | Instruction::And { x, y }
        | Instruction::Xor { x, y } | Instruction::AddCarry { x, y }
        | Instruction::SubBorrow { x, y } | Instruction::ShiftRight { x, y }
        | Instruction::SubReverse { x, y } | Instruction::ShiftLeft { x, y }
        | Instruction::SkipNeReg { x, y } | Instruction::Draw { x, y, .. } => x < 16 && y < 16,
        _ => true,
    }
}

/// Splits a word into nibbles and matches it against the instruction table.
pub fn decode(w: u16) -> (r: Option<Instruction>)
    ensures
        r == decode_spec(w),
        r matches Some(ins) ==> ins.well_formed() && registers_in_range(ins),
{
    let a = (w / 4096) as u8;
    let b = ((w / 256) % 16) as u8;
    let c = ((w / 16) % 16) as u8;
    let d = (w % 16) as u8;
    assert(nibbles_of(w) == (a, b, c, d));
    let addr = u16_from_nibbles_3(b, c, d);
    let value = u8_from_nibbles_2(c, d);
    match (a, b, c, d) {
        (0, 0, 0xE, 0) => Some(Instruction::ClearScreen),
        (0, 0, 0xE, 0xE) => Some(Instruction::Return),
        (0, _, _, _) => Some(Instruction::MachineCall { addr }),
        (1, _, _, _) => Some(Instruction::Jump { addr }),
        (2, _, _, _) => Some(Instruction::Call { addr }),
        (3, _, _, _) => Some(Instruction::SkipEqImm { x: b, value }),
        (4, _, _, _) => Some(Instruction::SkipNeImm { x: b, value }),
        (5, _, _, 0) => Some(Instruction::SkipEqReg { x: b, y: c }),
        (6, _, _, _) => Some(Instruction::LoadImm { x: b, value }),
        (7, _, _, _) => Some(Instruction::AddImm { x: b, value }),
        (8, _, _, 0) => Some(Instruction::Move { x: b, y: c }),
        (8, _, _, 1) => Some(Instruction::Or { x: b, y: c }),
        (8, _, _, 2) => Some(Instruction::And { x: b, y: c }),
        (8, _, _, 3) => Some(Instruction::Xor { x: b, y: c }),
        (8, _, _, 4) => Some(Instruction::AddCarry { x: b, y: c }),
        (8, _, _, 5) => Some(Instruction::SubBorrow { x: b, y: c }),
        (8, _, _, 6) => Some(Instruction::ShiftRight { x: b, y: c }),
        (8, _, _, 7) => Some(Instruction::SubReverse { x: b, y: c }),
        (8, _, _, 0xE) => Some(Instruction::ShiftLeft { x: b, y: c }),
        (9, _, _, 0) => Some(Instruction::SkipNeReg { x: b, y: c }),
        (0xA, _, _, _) => Some(Instruction::SetAddr { addr }),
        (0xB, _, _, _) => Some(Instruction::JumpOffset { addr }),
        (0xC, _, _, _) => Some(Instruction::Random { x: b, mask: value }),
        (0xD, _, _, _) => Some(Instruction::Draw { x: b, y: c, n: d }),
        (0xE, _, 9, 0xE) => Some(Instruction::SkipIfPressed { x: b }),
        (0xE, _, 0xA, 1) => Some(Instruction::SkipIfNotPressed { x: b }),
        (0xF, _, 0, 7) => Some(Instruction::ReadDelay { x: b }),
        (0xF, _, 0, 0xA) => Some(Instruction::WaitForKey { x: b }),
        (0xF, _, 1, 5) => Some(Instruction::SetDelay { x: b }),
        (0xF, _, 1, 8) => Some(Instruction::SetSound { x: b }),
        (0xF, _, 1, 0xE) => Some(Instruction::AddAddr { x: b }),
        (0xF, _, 2, 9) => Some(Instruction::Glyph { x: b }),
        (0xF, _, 3, 3) => Some(Instruction::Decimal { x: b }),
        (0xF, _, 5, 5) => Some(Instruction::StoreRegs { x: b }),
        (0xF, _, 6, 5) => Some(Instruction::LoadRegs { x: b }),
        _ => None,
    }
}

} // verus!
