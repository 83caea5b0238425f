//! The register-to-register operations.

use crate::instruction::AluOp;
use vstd::prelude::*;

verus! {

/// The register that a shift reads: under the legacy convention register
/// `y`, which is copied into `x` before shifting; otherwise `x` itself, which
/// is shifted in place.
pub open spec fn shift_source(vx: u8, vy: u8, legacy_shift: bool) -> u8 {
    if legacy_shift {
        vy
    } else {
        vx
    }
}

/// What an operation makes of the values `vx` and `vy` of registers `x` and
/// `y`: the new value of register `x` and, for the operations that set it,
/// the new value of the flag register.
///
/// Addition wraps and flags the carry. Subtraction wraps and flags the
/// absence of a borrow. A shift flags the bit that it shifts out.
pub open spec fn alu_spec(op: AluOp, vx: u8, vy: u8, legacy_shift: bool) -> (u8, Option<u8>) {
    let source = shift_source(vx, vy, legacy_shift);
    match op {
        AluOp::Assign => (vy, None),
        AluOp::Or => (vx | vy, None),
        AluOp::And => (vx & vy, None),
        AluOp::Xor => (vx ^ vy, None),
        AluOp::Add => (
            ((vx + vy) % 256) as u8,
            Some(
                if vx + vy > 255 {
                    1u8
                } else {
                    0u8
                },
            ),
        ),
        AluOp::Subtract => (
            ((vx - vy) % 256) as u8,
            Some(
                if vx >= vy {
                    1u8
                } else {
                    0u8
                },
            ),
        ),
        AluOp::ShiftRight => ((source / 2) as u8, Some((source % 2) as u8)),
        AluOp::SubtractFrom => (
            ((vy - vx) % 256) as u8,
            Some(
                if vy >= vx {
                    1u8
                } else {
                    0u8
                },
            ),
        ),
        AluOp::ShiftLeft => (((source * 2) % 256) as u8, Some((source / 128) as u8)),
    }
}

/// With the legacy convention on, a shift works on the value of register
/// `y`; with it off, on the value of register `x`. The two conventions give
/// different results exactly when the two registers differ in a bit that
/// the shift keeps or in the bit that it shifts out.
pub proof fn shift_mode_selects_source(vx: u8, vy: u8)
    ensures
        alu_spec(AluOp::ShiftRight, vx, vy, true) == ((vy / 2) as u8, Some((vy % 2) as u8)),
        alu_spec(AluOp::ShiftRight, vx, vy, false) == ((vx / 2) as u8, Some((vx % 2) as u8)),
        alu_spec(AluOp::ShiftLeft, vx, vy, true) == (((vy * 2) % 256) as u8, Some((vy / 128) as u8)),
        alu_spec(AluOp::ShiftLeft, vx, vy, false) == (
            ((vx * 2) % 256) as u8,
            Some((vx / 128) as u8),
        ),
        vx != vy ==> alu_spec(AluOp::ShiftRight, vx, vy, true) != alu_spec(
            AluOp::ShiftRight,
            vx,
            vy,
            false,
        ),
        vx != vy ==> alu_spec(AluOp::ShiftLeft, vx, vy, true) != alu_spec(
            AluOp::ShiftLeft,
            vx,
            vy,
            false,
        ),
{
}

/// Carries out one register-to-register operation on the values of
/// registers `x` and `y`. Returns the new value of register `x` and, where
/// the operation sets it, the new value of the flag register.
pub fn alu(op: AluOp, vx: u8, vy: u8, legacy_shift: bool) -> (out: (u8, Option<u8>))
    ensures
        out == alu_spec(op, vx, vy, legacy_shift),
{
    match op {
        AluOp::Assign => (vy, None),
        AluOp::Or => (vx | vy, None),
        AluOp::And => (vx & vy, None),
        AluOp::Xor => (vx ^ vy, None),
        AluOp::Add => {
            let carry: u8 = if vy > 255 - vx {
                1
            } else {
                0
            };
            (vx.wrapping_add(vy), Some(carry))
        },
        AluOp::Subtract => {
            let no_borrow: u8 = if vx >= vy {
                1
            } else {
                0
            };
            (vx.wrapping_sub(vy), Some(no_borrow))
        },
        AluOp::ShiftRight => {
            let source: u8 = if legacy_shift {
                vy
            } else {
                vx
            };
            let bit: u8 = source & 1;
            proof {
                assert(source >> 1u8 == source / 2) by (bit_vector);
                assert(source & 1 == source % 2) by (bit_vector);
            }
            (source >> 1u8, Some(bit))
        },
        AluOp::SubtractFrom => {
            let no_borrow: u8 = if vy >= vx {
                1
            } else {
                0
            };
            (vy.wrapping_sub(vx), Some(no_borrow))
        },
        AluOp::ShiftLeft => {
            let source: u8 = if legacy_shift {
                vy
            } else {
                vx
            };
            let bit: u8 = if source & 0b1000_0000 == 0 {
                0
            } else {
                1
            };
            proof {
                assert(source << 1u8 == (source * 2) % 256) by (bit_vector);
                assert((source & 0b1000_0000 == 0) == (source / 128 == 0)) by (bit_vector);
            }
            (source << 1u8, Some(bit))
        },
    }
}

} // verus!
