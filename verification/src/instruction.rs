//! Opcode fields and the instruction decoder.
use vstd::prelude::*;

verus! {

/// The operand fields of the last fetched opcode `0xCXYN`.
#[derive(Debug, Clone, Copy, PartialEq, Eq, Structural)]
pub struct Inst {
    pub x: u8,
    pub y: u8,
    pub n: u8,
    pub nn: u8,
    pub nnn: u16,
}

impl Inst {
    /// All fields zero.
    pub fn new() -> (r: Inst)
        ensures
            r == (Inst { x: 0, y: 0, n: 0, nn: 0, nnn: 0 }),
    {
        Inst { x: 0, y: 0, n: 0, nn: 0, nnn: 0 }
    }

    /// The operand fields of `opcode`.
    pub fn from_opcode(opcode: u16) -> (r: Inst)
        ensures
            r == inst_of(opcode),
    {
        proof {
            lemma_opcode_fields(opcode);
        }
        Inst {
            x: ((opcode >> 8) & 0xF) as u8,
            y: ((opcode >> 4) & 0xF) as u8,
            n: (opcode & 0xF) as u8,
            nn: (opcode & 0x00FF) as u8,
            nnn: opcode & 0x0FFF,
        }
    }
}

/// The instruction class, the top nibble of the opcode.
pub open spec fn op_c(op: u16) -> u8 {
    (op / 4096) as u8
}

/// The register operand X, the second nibble.
pub open spec fn op_x(op: u16) -> u8 {
    (op / 256 % 16) as u8
}

/// The register operand Y, the third nibble.
pub open spec fn op_y(op: u16) -> u8 {
    (op / 16 % 16) as u8
}

/// The 4-bit immediate N, the low nibble.
pub open spec fn op_n(op: u16) -> u8 {
    (op % 16) as u8
}

/// The 8-bit immediate NN, the low byte.
pub open spec fn op_nn(op: u16) -> u8 {
    (op % 256) as u8
}

/// The 12-bit address NNN.
pub open spec fn op_nnn(op: u16) -> u16 {
    op % 4096
}

/// The operand fields of `op`.
pub open spec fn inst_of(op: u16) -> Inst {
    Inst { x: op_x(op), y: op_y(op), n: op_n(op), nn: op_nn(op), nnn: op_nnn(op) }
}

/// The shifts and masks that extract the fields compute the nibbles above.
pub proof fn lemma_opcode_fields(op: u16)
    ensures
        ((op >> 12) & 0xF) == op / 4096,
        ((op >> 8) & 0xF) == op / 256 % 16,
        ((op >> 4) & 0xF) == op / 16 % 16,
        (op & 0xF) == op % 16,
        (op & 0x00FF) == op % 256,
        (op & 0x0FFF) == op % 4096,
{
    assert(((op >> 12) & 0xF) == op / 4096) by (bit_vector);
    assert(((op >> 8) & 0xF) == op / 256 % 16) by (bit_vector);
    assert(((op >> 4) & 0xF) == op / 16 % 16) by (bit_vector);
    assert((op & 0xF) == op % 16) by (bit_vector);
    assert((op & 0x00FF) == op % 256) by (bit_vector);
    assert((op & 0x0FFF) == op % 4096) by (bit_vector);
}

/// A decoded CHIP-8 instruction.
#[derive(Debug, Clone, Copy, PartialEq, Eq, Structural)]
pub enum Instruction {
    /// `00E0`: turn every pixel off.
    ClearScreen,
    /// `1NNN`: jump to NNN.
    Jump { nnn: u16 },
    /// `2NNN`: push the return address and jump to NNN.
    Call { nnn: u16 },
    /// `00EE`: pop the return address.
    Return,
    /// `3XNN`: skip the next instruction if VX == NN.
    SkipIfEqual { x: u8, nn: u8 },
    /// `4XNN`: skip the next instruction if VX != NN.
    SkipIfNotEqual { x: u8, nn: u8 },
    /// `5XY0`: skip the next instruction if VX == VY.
    SkipIfRegistersEqual { x: u8, y: u8 },
    /// `6XNN`: VX = NN.
    SetRegister { x: u8, nn: u8 },
    /// `7XNN`: VX += NN, wrapping, VF untouched.
    AddToRegister { x: u8, nn: u8 },
    /// `8XY0`: VX = VY.
    CopyRegister { x: u8, y: u8 },
    /// `8XY1`: VX |= VY.
    Or { x: u8, y: u8 },
    /// `8XY2`: VX &= VY.
    And { x: u8, y: u8 },
    /// `8XY3`: VX ^= VY.
    Xor { x: u8, y: u8 },
    /// `8XY4`: VX += VY, VF = carry.
    AddRegisters { x: u8, y: u8 },
    /// `8XY5`: VX -= VY, VF = not borrow.
    SubRegisters { x: u8, y: u8 },
    /// `8XY6`: VX >>= 1, VF = the bit shifted out.
    ShiftRight { x: u8 },
    /// `8XY7`: VX = VY - VX, VF = not borrow.
    SubReversed { x: u8, y: u8 },
    /// `8XYE`: VX <<= 1, VF = the bit shifted out.
    ShiftLeft { x: u8 },
    /// `9XY0`: skip the next instruction if VX != VY.
    SkipIfRegistersNotEqual { x: u8, y: u8 },
    /// `ANNN`: I = NNN.
    SetIndex { nnn: u16 },
    /// `DXYN`: draw the N-byte sprite at I at (VX, VY), VF = collision.
    Draw { x: u8, y: u8, n: u8 },
    /// `FX07`: VX = delay timer.
    ReadDelayTimer { x: u8 },
    /// `FX0A`: wait until a key is pressed and store it in VX.
    WaitForKey { x: u8 },
    /// `FX15`: delay timer = VX.
    SetDelayTimer { x: u8 },
    /// `FX18`: sound timer = VX.
    SetSoundTimer { x: u8 },
    /// `FX1E`: I += VX, wrapping.
    AddToIndex { x: u8 },
    /// `FX29`: I = address of the font glyph for VX.
    FontCharacter { x: u8 },
    /// `FX33`: recognised, has no effect.
    StoreBcd { x: u8 },
    /// `FX55`: recognised, has no effect.
    StoreRegisters { x: u8 },
    /// `FX65`: recognised, has no effect.
    LoadRegisters { x: u8 },
    /// Any other opcode: no effect.
    Unknown,
}

/// The instruction that `op` encodes. Where two patterns could apply the
/// earlier one in this list wins.
pub open spec fn spec_decode(op: u16) -> Instruction {
    let c = op_c(op);
    let x = op_x(op);
    let y = op_y(op);
    let n = op_n(op);
    let nn = op_nn(op);
    let nnn = op_nnn(op);
    if c == 0 && x == 0 && y == 0xE && n == 0 {
        Instruction::ClearScreen
    } else if c == 1 {
        Instruction::Jump { nnn }
    } else if c == 2 {
        Instruction::Call { nnn }
    } else if c == 0 && x == 0 && y == 0xE && n == 0xE {
        Instruction::Return
    } else if c == 3 {
        Instruction::SkipIfEqual { x, nn }
    } else if c == 4 {
        Instruction::SkipIfNotEqual { x, nn }
    } else if c == 5 && n == 0 {
        Instruction::SkipIfRegistersEqual { x, y }
    } else if c == 6 {
        Instruction::SetRegister { x, nn }
    } else if c == 7 {
        Instruction::AddToRegister { x, nn }
    } else if c == 8 && n == 0 {
        Instruction::CopyRegister { x, y }
    } else if c == 8 && n == 1 {
        Instruction::Or { x, y }
    } else if c == 8 && n == 2 {
        Instruction::And { x, y }
    } else if c == 8 && n == 3 {
        Instruction::Xor { x, y }
    } else if c == 8 && n == 4 {
        Instruction::AddRegisters { x, y }
    } else if c == 8 && n == 5 {
        Instruction::SubRegisters { x, y }
    } else if c == 8 && n == 6 {
        Instruction::ShiftRight { x }
    } else if c == 8 && n == 7 {
        Instruction::SubReversed { x, y }
    } else if c == 8 && n == 0xE {
        Instruction::ShiftLeft { x }
    } else if c == 9 && n == 0 {
        Instruction::SkipIfRegistersNotEqual { x, y }
    } else if c == 0xA {
        Instruction::SetIndex { nnn }
    } else if c == 0xD {
        Instruction::Draw { x, y, n }
    } else if c == 0xF && y == 0 && n == 7 {
        Instruction::ReadDelayTimer { x }
    } else if c == 0xF && y == 0 && n == 0xA {
        Instruction::WaitForKey { x }
    } else if c == 0xF && y == 1 && n == 5 {
        Instruction::SetDelayTimer { x }
    } else if c == 0xF && y == 1 && n == 8 {
        Instruction::SetSoundTimer { x }
    } else if c == 0xF && y == 1 && n == 0xE {
        Instruction::AddToIndex { x }
    } else if c == 0xF && y == 2 && n == 9 {
        Instruction::FontCharacter { x }
    } else if c == 0xF && y == 3 && n == 3 {
        Instruction::StoreBcd { x }
    } else if c == 0xF && y == 5 && n == 5 {
        Instruction::StoreRegisters { x }
    } else if c == 0xF && y == 6 && n == 5 {
        Instruction::LoadRegisters { x }
    } else {
        Instruction::Unknown
    }
}

/// Decodes an opcode.
pub fn decode(opcode: u16) -> (ins: Instruction)
    ensures
        ins == spec_decode(opcode),
{
    proof {
        lemma_opcode_fields(opcode);
    }
    let c = ((opcode >> 12) & 0xF) as u8;
    let x = ((opcode >> 8) & 0xF) as u8;
    let y = ((opcode >> 4) & 0xF) as u8;
    let n = (opcode & 0xF) as u8;
    let nn = (opcode & 0x00FF) as u8;
    let nnn = opcode & 0x0FFF;
    match (c, x, y, n) {
        (0, 0, 0xE, 0) => Instruction::ClearScreen,
        (0x1, _, _, _) => Instruction::Jump { nnn },
        (0x2, _, _, _) => Instruction::Call { nnn },
        (0, 0, 0xE, 0xE) => Instruction::Return,
        (0x3, _, _, _) => Instruction::SkipIfEqual { x, nn },
        (0x4, _, _, _) => Instruction::SkipIfNotEqual { x, nn },
        (0x5, _, _, 0) => Instruction::SkipIfRegistersEqual { x, y },
        (0x6, _, _, _) => Instruction::SetRegister { x, nn },
        (0x7, _, _, _) => Instruction::AddToRegister { x, nn },
        (0x8, _, _, 0) => Instruction::CopyRegister { x, y },
        (0x8, _, _, 1) => Instruction::Or { x, y },
        (0x8, _, _, 2) => Instruction::And { x, y },
        (0x8, _, _, 3) => Instruction::Xor { x, y },
        (0x8, _, _, 4) => Instruction::AddRegisters { x, y },
        (0x8, _, _, 5) => Instruction::SubRegisters { x, y },
        (0x8, _, _, 6) => Instruction::ShiftRight { x },
        (0x8, _, _, 7) => Instruction::SubReversed { x, y },
        (0x8, _, _, 0xE) => Instruction::ShiftLeft { x },
        (0x9, _, _, 0) => Instruction::SkipIfRegistersNotEqual { x, y },
        (0xA, _, _, _) => Instruction::SetIndex { nnn },
        (0xD, _, _, _) => Instruction::Draw { x, y, n },
        (0xF, _, 0x0, 0x7) => Instruction::ReadDelayTimer { x },
        (0xF, _, 0x0, 0xA) => Instruction::WaitForKey { x },
        (0xF, _, 0x1, 0x5) => Instruction::SetDelayTimer { x },
        (0xF, _, 0x1, 0x8) => Instruction::SetSoundTimer { x },
        (0xF, _, 0x1, 0xE) => Instruction::AddToIndex { x },
        (0xF, _, 0x2, 0x9) => Instruction::FontCharacter { x },
        (0xF, _, 0x3, 0x3) => Instruction::StoreBcd { x },
        (0xF, _, 0x5, 0x5) => Instruction::StoreRegisters { x },
        (0xF, _, 0x6, 0x5) => Instruction::LoadRegisters { x },
        _ => Instruction::Unknown,
    }
}

} // verus!
