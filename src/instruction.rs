//! Splitting a 16-bit opcode into its fields and naming the operation it encodes.

use vstd::prelude::*;

verus! {

/// The high nibble of an opcode, which selects the instruction group.
pub open spec fn op_group(op: u16) -> u16 {
    op / 0x1000
}

/// The second nibble: the first register operand.
pub open spec fn op_x(op: u16) -> u8 {
    ((op / 0x100) % 0x10) as u8
}

/// The third nibble: the second register operand.
pub open spec fn op_y(op: u16) -> u8 {
    ((op / 0x10) % 0x10) as u8
}

/// The low nibble.
pub open spec fn op_n(op: u16) -> u8 {
    (op % 0x10) as u8
}

/// The low byte.
pub open spec fn op_nn(op: u16) -> u8 {
    (op % 0x100) as u8
}

/// The low twelve bits: an address.
pub open spec fn op_nnn(op: u16) -> u16 {
    op % 0x1000
}

/// One decoded instruction. Register operands are in `0..16`.
#[derive(Clone, Copy, Debug, PartialEq, Eq, Structural)]
pub enum Instruction {
    /// `00E0`: clear the display.
    ClearDisplay,
    /// `00EE`: return from a subroutine.
    Return,
    /// `0nnn` other than the two above: a machine-code call, ignored.
    MachineCall { nnn: u16 },
    /// `1nnn`: jump to `nnn`.
    Jump { nnn: u16 },
    /// `2nnn`: call the subroutine at `nnn`.
    Call { nnn: u16 },
    /// `3xnn`: skip the next instruction if `V[x] == nn`.
    SkipIfEqualImm { x: u8, nn: u8 },
    /// `4xnn`: skip the next instruction if `V[x] != nn`.
    SkipIfNotEqualImm { x: u8, nn: u8 },
    /// `5xy0`: skip the next instruction if `V[x] == V[y]`.
    SkipIfEqualReg { x: u8, y: u8 },
    /// `6xnn`: `V[x] = nn`.
    SetImm { x: u8, nn: u8 },
    /// `7xnn`: `V[x] += nn`, without touching the flag.
    AddImm { x: u8, nn: u8 },
    /// `8xy0`: `V[x] = V[y]`.
    Move { x: u8, y: u8 },
    /// `8xy1`: `V[x] |= V[y]`.
    Or { x: u8, y: u8 },
    /// `8xy2`: `V[x] &= V[y]`.
    And { x: u8, y: u8 },
    /// `8xy3`: `V[x] ^= V[y]`.
    Xor { x: u8, y: u8 },
    /// `8xy4`: `V[x] += V[y]`, flag set on carry.
    AddReg { x: u8, y: u8 },
    /// `8xy5`: `V[x] -= V[y]`, flag set when no borrow.
    SubReg { x: u8, y: u8 },
    /// `8xy6`: shift right by one, flag gets the bit shifted out.
    ShiftRight { x: u8, y: u8 },
    /// `8xy7`: `V[x] = V[y] - V[x]`, flag set when no borrow.
    SubReverse { x: u8, y: u8 },
    /// `8xyE`: shift left by one, flag gets the bit shifted out.
    ShiftLeft { x: u8, y: u8 },
    /// `9xy0`: skip the next instruction if `V[x] != V[y]`.
    SkipIfNotEqualReg { x: u8, y: u8 },
    /// `Annn`: `I = nnn`.
    SetIndex { nnn: u16 },
    /// `Bnnn`: jump to `nnn + V[0]`.
    JumpOffset { nnn: u16 },
    /// `Cxnn`: `V[x] = random & nn`.
    Random { x: u8, nn: u8 },
    /// `Dxyn`: draw an `n`-row sprite at `(V[x], V[y])`.
    Draw { x: u8, y: u8, n: u8 },
    /// `Ex9E`: skip the next instruction if key `V[x]` is pressed.
    SkipIfKey { x: u8 },
    /// `ExA1`: skip the next instruction if key `V[x]` is not pressed.
    SkipIfNotKey { x: u8 },
    /// `Fx07`: `V[x] = delay timer`.
    ReadDelay { x: u8 },
    /// `Fx0A`: wait for a key press and store its code in `V[x]`.
    WaitKey { x: u8 },
    /// `Fx15`: `delay timer = V[x]`.
    SetDelay { x: u8 },
    /// `Fx18`: `sound timer = V[x]`.
    SetSound { x: u8 },
    /// `Fx1E`: `I += V[x]`.
    AddIndex { x: u8 },
    /// `Fx29`: `I` = address of the font glyph for the low nibble of `V[x]`.
    FontGlyph { x: u8 },
    /// `Fx33`: store the three decimal digits of `V[x]` at `I`, `I+1`, `I+2`.
    StoreBcd { x: u8 },
    /// `Fx55`: store `V[0..=x]` at `I..=I+x`.
    StoreRegisters { x: u8 },
    /// `Fx65`: load `V[0..=x]` from `I..=I+x`.
    LoadRegisters { x: u8 },
    /// An opcode that encodes no instruction.
    Unknown { opcode: u16 },
}

impl Instruction {
    /// Register operands and the sprite height are nibbles; addresses are
    /// twelve bits.
    pub open spec fn well_formed(self) -> bool {
        match self {
            Instruction::MachineCall { nnn } => nnn < 0x1000,
            Instruction::Jump { nnn } => nnn < 0x1000,
            Instruction::Call { nnn } => nnn < 0x1000,
            Instruction::SetIndex { nnn } => nnn < 0x1000,
            Instruction::JumpOffset { nnn } => nnn < 0x1000,
            Instruction::SkipIfEqualImm { x, nn } => x < 16,
            Instruction::SkipIfNotEqualImm { x, nn } => x < 16,
            Instruction::SetImm { x, nn } => x < 16,
            Instruction::AddImm { x, nn } => x < 16,
            Instruction::Random { x, nn } => x < 16,
            Instruction::SkipIfEqualReg { x, y } => x < 16 && y < 16,
            Instruction::Move { x, y } => x < 16 && y < 16,
            Instruction::Or { x, y } => x < 16 && y < 16,
            Instruction::And { x, y } => x < 16 && y < 16,
            Instruction::Xor { x, y } => x < 16 && y < 16,
            Instruction::AddReg { x, y } => x < 16 && y < 16,
            Instruction::SubReg { x, y } => x < 16 && y < 16,
            Instruction::ShiftRight { x, y } => x < 16 && y < 16,
            Instruction::SubReverse { x, y } => x < 16 && y < 16,
            Instruction::ShiftLeft { x, y } => x < 16 && y < 16,
            Instruction::SkipIfNotEqualReg { x, y } => x < 16 && y < 16,
            Instruction::Draw { x, y, n } => x < 16 && y < 16 && n < 16,
            Instruction::SkipIfKey { x } => x < 16,
            Instruction::SkipIfNotKey { x } => x < 16,
            Instruction::ReadDelay { x } => x < 16,
            Instruction::WaitKey { x } => x < 16,
            Instruction::SetDelay { x } => x < 16,
            Instruction::SetSound { x } => x < 16,
            Instruction::AddIndex { x } => x < 16,
            Instruction::FontGlyph { x } => x < 16,
            Instruction::StoreBcd { x } => x < 16,
            Instruction::StoreRegisters { x } => x < 16,
            Instruction::LoadRegisters { x } => x < 16,
            _ => true,
        }
    }
}

/// The instruction that an opcode encodes.
pub open spec fn decode_spec(op: u16) -> Instruction {
    let x = op_x(op);
    let y = op_y(op);
    let n = op_n(op);
    let nn = op_nn(op);
    let nnn = op_nnn(op);
    let g = op_group(op);
    if g == 0x0 {
        if op == 0x00E0 {
            Instruction::ClearDisplay
        } else if op == 0x00EE {
            Instruction::Return
        } else {
            Instruction::MachineCall { nnn }
        }
    } else if g == 0x1 {
        Instruction::Jump { nnn }
    } else if g == 0x2 {
        Instruction::Call { nnn }
    } else if g == 0x3 {
        Instruction::SkipIfEqualImm { x, nn }
    } else if g == 0x4 {
        Instruction::SkipIfNotEqualImm { x, nn }
    } else if g == 0x5 {
        Instruction::SkipIfEqualReg { x, y }
    } else if g == 0x6 {
        Instruction::SetImm { x, nn }
    } else if g == 0x7 {
        Instruction::AddImm { x, nn }
    } else if g == 0x8 {
        if n == 0x0 {
            Instruction::Move { x, y }
        } else if n == 0x1 {
            Instruction::Or { x, y }
        } else if n == 0x2 {
            Instruction::And { x, y }
        } else if n == 0x3 {
            Instruction::Xor { x, y }
        } else if n == 0x4 {
            Instruction::AddReg { x, y }
        } else if n == 0x5 {
            Instruction::SubReg { x, y }
        } else if n == 0x6 {
            Instruction::ShiftRight { x, y }
        } else if n == 0x7 {
            Instruction::SubReverse { x, y }
        } else if n == 0xE {
            Instruction::ShiftLeft { x, y }
        } else {
            Instruction::Unknown { opcode: op }
        }
    } else if g == 0x9 {
        Instruction::SkipIfNotEqualReg { x, y }
    } else if g == 0xA {
        Instruction::SetIndex { nnn }
    } else if g == 0xB {
        Instruction::JumpOffset { nnn }
    } else if g == 0xC {
        Instruction::Random { x, nn }
    } else if g == 0xD {
        Instruction::Draw { x, y, n }
    } else if g == 0xE {
        if nn == 0x9E {
            Instruction::SkipIfKey { x }
        } else if nn == 0xA1 {
            Instruction::SkipIfNotKey { x }
        } else {
            Instruction::Unknown { opcode: op }
        }
    } else {
        if nn == 0x07 {
            Instruction::ReadDelay { x }
        } else if nn == 0x0A {
            Instruction::WaitKey { x }
        } else if nn == 0x15 {
            Instruction::SetDelay { x }
        } else if nn == 0x18 {
            Instruction::SetSound { x }
        } else if nn == 0x1E {
            Instruction::AddIndex { x }
        } else if nn == 0x29 {
            Instruction::FontGlyph { x }
        } else if nn == 0x33 {
            Instruction::StoreBcd { x }
        } else if nn == 0x55 {
            Instruction::StoreRegisters { x }
        } else if nn == 0x65 {
            Instruction::LoadRegisters { x }
        } else {
            Instruction::Unknown { opcode: op }
        }
    }
}

impl Instruction {
    /// Splits `opcode` into its nibble fields and names the instruction.
    pub fn decode(opcode: u16) -> (r: Instruction)
        ensures
            r == decode_spec(opcode),
            r.well_formed(),
    {
        let group: u16 = opcode >> 12;
        let x: u8 = ((opcode >> 8) & 0xF) as u8;
        let y: u8 = ((opcode >> 4) & 0xF) as u8;
        let n: u8 = (opcode & 0xF) as u8;
        let nn: u8 = (opcode & 0xFF) as u8;
        let nnn: u16 = opcode & 0xFFF;
        proof {
            assert(group == opcode / 0x1000) by (bit_vector)
                requires
                    group == opcode >> 12,
            ;
            assert(((opcode >> 8) & 0xF) == (opcode / 0x100) % 0x10) by (bit_vector);
            assert(((opcode >> 4) & 0xF) == (opcode / 0x10) % 0x10) by (bit_vector);
            assert(opcode & 0xF == opcode % 0x10) by (bit_vector);
            assert(opcode & 0xFF == opcode % 0x100) by (bit_vector);
            assert(opcode & 0xFFF == opcode % 0x1000) by (bit_vector);
        }
        match group {
            0x0 => {
                if opcode == 0x00E0 {
                    Instruction::ClearDisplay
                } else if opcode == 0x00EE {
                    Instruction::Return
                } else {
                    Instruction::MachineCall { nnn }
                }
            },
            0x1 => Instruction::Jump { nnn },
            0x2 => Instruction::Call { nnn },
            0x3 => Instruction::SkipIfEqualImm { x, nn },
            0x4 => Instruction::SkipIfNotEqualImm { x, nn },
            0x5 => Instruction::SkipIfEqualReg { x, y },
            0x6 => Instruction::SetImm { x, nn },
            0x7 => Instruction::AddImm { x, nn },
            0x8 => match n {
                0x0 => Instruction::Move { x, y },
                0x1 => Instruction::Or { x, y },
                0x2 => Instruction::And { x, y },
                0x3 => Instruction::Xor { x, y },
                0x4 => Instruction::AddReg { x, y },
                0x5 => Instruction::SubReg { x, y },
                0x6 => Instruction::ShiftRight { x, y },
                0x7 => Instruction::SubReverse { x, y },
                0xE => Instruction::ShiftLeft { x, y },
                _ => Instruction::Unknown { opcode },
            },
            0x9 => Instruction::SkipIfNotEqualReg { x, y },
            0xA => Instruction::SetIndex { nnn },
            0xB => Instruction::JumpOffset { nnn },
            0xC => Instruction::Random { x, nn },
            0xD => Instruction::Draw { x, y, n },
            0xE => match nn {
                0x9E => Instruction::SkipIfKey { x },
                0xA1 => Instruction::SkipIfNotKey { x },
                _ => Instruction::Unknown { opcode },
            },
            _ => match nn {
                0x07 => Instruction::ReadDelay { x },
                0x0A => Instruction::WaitKey { x },
                0x15 => Instruction::SetDelay { x },
                0x18 => Instruction::SetSound { x },
                0x1E => Instruction::AddIndex { x },
                0x29 => Instruction::FontGlyph { x },
                0x33 => Instruction::StoreBcd { x },
                0x55 => Instruction::StoreRegisters { x },
                0x65 => Instruction::LoadRegisters { x },
                _ => Instruction::Unknown { opcode },
            },
        }
    }
}

} // verus!
