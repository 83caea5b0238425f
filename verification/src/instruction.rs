//! Instruction words and their decoding.
//!
//! An instruction is a 16-bit word. Its top four bits select the family;
//! the remaining twelve bits are read, depending on the family, as two
//! register indices `x` and `y` and a nibble `n`, as a register index `x`
//! and a byte `nn`, or as an address `nnn`.

use vstd::prelude::*;

verus! {

/// The operations of the register-to-register family.
#[derive(Clone, Copy, Debug, PartialEq, Eq, Structural)]
pub enum AluOp {
    /// `x = y`.
    Assign,
    /// `x = x | y`.
    Or,
    /// `x = x & y`.
    And,
    /// `x = x ^ y`.
    Xor,
    /// `x = x + y`, with the carry in the flag register.
    Add,
    /// `x = x - y`, with the flag register at 1 unless the subtraction borrowed.
    Subtract,
    /// Shift right by one, with the bit shifted out in the flag register.
    ShiftRight,
    /// `x = y - x`, with the flag register at 1 unless the subtraction borrowed.
    SubtractFrom,
    /// Shift left by one, with the bit shifted out in the flag register.
    ShiftLeft,
}

/// A decoded instruction.
#[derive(Clone, Copy, Debug, PartialEq, Eq, Structural)]
pub enum Instruction {
    /// Family 0, low nibble 0 (`00E0`): turn every pixel off.
    ClearScreen,
    /// Family 0, low nibble E (`00EE`): return from a subroutine.
    Return,
    /// `1nnn`: continue at `address`.
    Jump { address: u16 },
    /// `2nnn`: call the subroutine at `address`.
    Call { address: u16 },
    /// `3xnn`: skip the next instruction if register `x` equals `value`.
    SkipIfEqual { x: u8, value: u8 },
    /// `4xnn`: skip the next instruction if register `x` differs from `value`.
    SkipIfNotEqual { x: u8, value: u8 },
    /// `5xy_`: skip the next instruction if registers `x` and `y` are equal.
    SkipIfRegistersEqual { x: u8, y: u8 },
    /// `6xnn`: set register `x` to `value`.
    SetRegister { x: u8, value: u8 },
    /// `7xnn`: add `value` to register `x`, wrapping, without touching the flag.
    Add { x: u8, value: u8 },
    /// `8xyn`: combine registers `x` and `y` into register `x`.
    Alu { op: AluOp, x: u8, y: u8 },
    /// `9xy_`: skip the next instruction if registers `x` and `y` differ.
    SkipIfRegistersNotEqual { x: u8, y: u8 },
    /// `Annn`: set the index register to `address`.
    SetIndex { address: u16 },
    /// `Bnnn`: continue at `address` plus register 0.
    JumpOffset { address: u16 },
    /// `Cxnn`: set register `x` to a random byte masked with `mask`.
    Random { x: u8, mask: u8 },
    /// `Dxyn`: draw the `rows`-byte sprite at the index register, at the
    /// position held in registers `x` and `y`.
    Draw { x: u8, y: u8, rows: u8 },
    /// `Ex9E`: skip the next instruction if the key named by register `x` is down.
    SkipIfKeyDown { x: u8 },
    /// `ExA1`: skip the next instruction if the key named by register `x` is up.
    SkipIfKeyUp { x: u8 },
    /// `Fx07`: copy the delay timer into register `x`.
    ReadDelay { x: u8 },
    /// `Fx15`: set the delay timer from register `x`.
    SetDelay { x: u8 },
    /// `Fx18`: set the sound timer from register `x`.
    SetSound { x: u8 },
    /// Any other word. Executing it does nothing.
    Unrecognized,
}

impl Instruction {
    /// Register indices are below 16, addresses below 4096 and sprite
    /// heights below 16. Every decoded instruction is well formed.
    pub open spec fn wf(self) -> bool {
        match self {
            Instruction::Jump { address } => address < 0x1000,
            Instruction::Call { address } => address < 0x1000,
            Instruction::SkipIfEqual { x, .. } => x < 16,
            Instruction::SkipIfNotEqual { x, .. } => x < 16,
            Instruction::SkipIfRegistersEqual { x, y } => x < 16 && y < 16,
            Instruction::SetRegister { x, .. } => x < 16,
            Instruction::Add { x, .. } => x < 16,
            Instruction::Alu { x, y, .. } => x < 16 && y < 16,
            Instruction::SkipIfRegistersNotEqual { x, y } => x < 16 && y < 16,
            Instruction::SetIndex { address } => address < 0x1000,
            Instruction::JumpOffset { address } => address < 0x1000,
            Instruction::Random { x, .. } => x < 16,
            Instruction::Draw { x, y, rows } => x < 16 && y < 16 && rows < 16,
            Instruction::SkipIfKeyDown { x } => x < 16,
            Instruction::SkipIfKeyUp { x } => x < 16,
            Instruction::ReadDelay { x } => x < 16,
            Instruction::SetDelay { x } => x < 16,
            Instruction::SetSound { x } => x < 16,
            _ => true,
        }
    }
}

/// The family of an instruction word: its top four bits.
pub open spec fn family_of(word: u16) -> int {
    word as int / 0x1000
}

/// The field `x` of an instruction word: bits 8 to 11.
pub open spec fn x_of(word: u16) -> u8 {
    (word as int / 0x100 % 0x10) as u8
}

/// The field `y` of an instruction word: bits 4 to 7.
pub open spec fn y_of(word: u16) -> u8 {
    (word as int / 0x10 % 0x10) as u8
}

/// The field `n` of an instruction word: its low four bits.
pub open spec fn n_of(word: u16) -> u8 {
    (word as int % 0x10) as u8
}

/// The field `nn` of an instruction word: its low byte.
pub open spec fn nn_of(word: u16) -> u8 {
    (word as int % 0x100) as u8
}

/// The field `nnn` of an instruction word: its low twelve bits.
pub open spec fn nnn_of(word: u16) -> u16 {
    (word as int % 0x1000) as u16
}

/// The register-to-register operation that the nibble `n` selects, if any.
pub open spec fn alu_op_of(n: u8) -> Option<AluOp> {
    if n == 0x0 {
        Some(AluOp::Assign)
    } else if n == 0x1 {
        Some(AluOp::Or)
    } else if n == 0x2 {
        Some(AluOp::And)
    } else if n == 0x3 {
        Some(AluOp::Xor)
    } else if n == 0x4 {
        Some(AluOp::Add)
    } else if n == 0x5 {
        Some(AluOp::Subtract)
    } else if n == 0x6 {
        Some(AluOp::ShiftRight)
    } else if n == 0x7 {
        Some(AluOp::SubtractFrom)
    } else if n == 0xE {
        Some(AluOp::ShiftLeft)
    } else {
        None
    }
}

/// The instruction that a word stands for.
///
/// Families 0 and 8 are keyed by the low nibble, families E and F by the
/// low byte. A word that its family does not recognise decodes to
/// [`Instruction::Unrecognized`].
pub open spec fn decode_spec(word: u16) -> Instruction {
    let family = family_of(word);
    let x = x_of(word);
    let y = y_of(word);
    let n = n_of(word);
    let nn = nn_of(word);
    let nnn = nnn_of(word);
    if family == 0x0 {
        if n == 0x0 {
            Instruction::ClearScreen
        } else if n == 0xE {
            Instruction::Return
        } else {
            Instruction::Unrecognized
        }
    } else if family == 0x1 {
        Instruction::Jump { address: nnn }
    } else if family == 0x2 {
        Instruction::Call { address: nnn }
    } else if family == 0x3 {
        Instruction::SkipIfEqual { x, value: nn }
    } else if family == 0x4 {
        Instruction::SkipIfNotEqual { x, value: nn }
    } else if family == 0x5 {
        Instruction::SkipIfRegistersEqual { x, y }
    } else if family == 0x6 {
        Instruction::SetRegister { x, value: nn }
    } else if family == 0x7 {
        Instruction::Add { x, value: nn }
    } else if family == 0x8 {
        match alu_op_of(n) {
            Some(op) => Instruction::Alu { op, x, y },
            None => Instruction::Unrecognized,
        }
    } else if family == 0x9 {
        Instruction::SkipIfRegistersNotEqual { x, y }
    } else if family == 0xA {
        Instruction::SetIndex { address: nnn }
    } else if family == 0xB {
        Instruction::JumpOffset { address: nnn }
    } else if family == 0xC {
        Instruction::Random { x, mask: nn }
    } else if family == 0xD {
        Instruction::Draw { x, y, rows: n }
    } else if family == 0xE {
        if nn == 0x9E {
            Instruction::SkipIfKeyDown { x }
        } else if nn == 0xA1 {
            Instruction::SkipIfKeyUp { x }
        } else {
            Instruction::Unrecognized
        }
    } else {
        if nn == 0x07 {
            Instruction::ReadDelay { x }
        } else if nn == 0x15 {
            Instruction::SetDelay { x }
        } else if nn == 0x18 {
            Instruction::SetSound { x }
        } else {
            Instruction::Unrecognized
        }
    }
}

/// Every word decodes to a well-formed instruction.
pub proof fn decode_is_well_formed(word: u16)
    ensures
        decode_spec(word).wf(),
{
}

/// Splitting a word with masks and shifts gives the fields that division
/// and remainder define.
proof fn lemma_fields(word: u16)
    ensures
        (word & 0xF000) >> 12 == family_of(word),
        (word & 0x0F00) >> 8 == x_of(word),
        (word & 0x00F0) >> 4 == y_of(word),
        word & 0x000F == n_of(word),
        word & 0x00FF == nn_of(word),
        word & 0x0FFF == nnn_of(word),
{
    assert((word & 0xF000) >> 12 == word / 0x1000) by (bit_vector);
    assert((word & 0x0F00) >> 8 == word / 0x100 % 0x10) by (bit_vector);
    assert((word & 0x00F0) >> 4 == word / 0x10 % 0x10) by (bit_vector);
    assert(word & 0x000F == word % 0x10) by (bit_vector);
    assert(word & 0x00FF == word % 0x100) by (bit_vector);
    assert(word & 0x0FFF == word % 0x1000) by (bit_vector);
}

/// Decodes an instruction word.
pub fn decode(instruction: u16) -> (decoded: Instruction)
    ensures
        decoded == decode_spec(instruction),
        decoded.wf(),
{
    proof {
        lemma_fields(instruction);
    }
    let nibble: u16 = (instruction & 0xF000) >> 12;
    let x: u8 = ((instruction & 0x0F00) >> 8) as u8;
    let y: u8 = ((instruction & 0x00F0) >> 4) as u8;
    let n: u8 = (instruction & 0x000F) as u8;
    let nn: u8 = (instruction & 0xFF) as u8;
    let nnn: u16 = instruction & 0xFFF;
    match nibble {
        0x0 => match n {
            0x0 => Instruction::ClearScreen,
            0xE => Instruction::Return,
            _ => Instruction::Unrecognized,
        },
        0x1 => Instruction::Jump { address: nnn },
        0x2 => Instruction::Call { address: nnn },
        0x3 => Instruction::SkipIfEqual { x, value: nn },
        0x4 => Instruction::SkipIfNotEqual { x, value: nn },
        0x5 => Instruction::SkipIfRegistersEqual { x, y },
        0x6 => Instruction::SetRegister { x, value: nn },
        0x7 => Instruction::Add { x, value: nn },
        0x8 => match n {
            0x0 => Instruction::Alu { op: AluOp::Assign, x, y },
            0x1 => Instruction::Alu { op: AluOp::Or, x, y },
            0x2 => Instruction::Alu { op: AluOp::And, x, y },
            0x3 => Instruction::Alu { op: AluOp::Xor, x, y },
            0x4 => Instruction::Alu { op: AluOp::Add, x, y },
            0x5 => Instruction::Alu { op: AluOp::Subtract, x, y },
            0x6 => Instruction::Alu { op: AluOp::ShiftRight, x, y },
            0x7 => Instruction::Alu { op: AluOp::SubtractFrom, x, y },
            0xE => Instruction::Alu { op: AluOp::ShiftLeft, x, y },
            _ => Instruction::Unrecognized,
        },
        0x9 => Instruction::SkipIfRegistersNotEqual { x, y },
        0xA => Instruction::SetIndex { address: nnn },
        0xB => Instruction::JumpOffset { address: nnn },
        0xC => Instruction::Random { x, mask: nn },
        0xD => Instruction::Draw { x, y, rows: n },
        0xE => match nn {
            0x9E => Instruction::SkipIfKeyDown { x },
            0xA1 => Instruction::SkipIfKeyUp { x },
            _ => Instruction::Unrecognized,
        },
        0xF => match nn {
            0x07 => Instruction::ReadDelay { x },
            0x15 => Instruction::SetDelay { x },
            0x18 => Instruction::SetSound { x },
            _ => Instruction::Unrecognized,
        },
        _ => Instruction::Unrecognized,
    }
}

} // verus!
