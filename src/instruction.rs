//! Instruction words and their decoding.
//!
//! An instruction word is 16 bits, read as four nibbles. The first selects the
//! family; `x` and `y` (second and third nibble) name registers, `n` is the
//! last nibble, `nn` the low byte and `nnn` the low twelve bits.

use vstd::prelude::*;

verus! {

/// One decoded instruction. Register operands are always below 16, `n` below
/// 16 and addresses below 4096.
#[derive(Debug, Clone, Copy, PartialEq, Eq, Structural)]
pub enum Instruction {
    /// `00E0`: turn every pixel off.
    ClearScreen,
    /// `00EE`: return from a subroutine.
    Return,
    /// `1nnn`: continue at `nnn`.
    Jump { nnn: u16 },
    /// `2nnn`: push the return address and continue at `nnn`.
    Call { nnn: u16 },
    /// `3xnn`: skip the next instruction if `Vx == nn`.
    SkipIfEqual { x: u8, nn: u8 },
    /// `4xnn`: skip the next instruction if `Vx != nn`.
    SkipIfNotEqual { x: u8, nn: u8 },
    /// `5xy_`: skip the next instruction if `Vx == Vy`.
    SkipIfRegistersEqual { x: u8, y: u8 },
    /// `6xnn`: `Vx = nn`.
    LoadImmediate { x: u8, nn: u8 },
    /// `7xnn`: `Vx += nn`, wrapping, flag untouched.
    AddImmediate { x: u8, nn: u8 },
    /// `8xy0`: `Vx = Vy`.
    Assign { x: u8, y: u8 },
    /// `8xy1`: `Vx |= Vy`.
    Or { x: u8, y: u8 },
    /// `8xy2`: `Vx &= Vy`.
    And { x: u8, y: u8 },
    /// `8xy3`: `Vx ^= Vy`.
    Xor { x: u8, y: u8 },
    /// `8xy4`: `Vx += Vy`, wrapping, then the carry flag.
    AddWithCarry { x: u8, y: u8 },
    /// `8xy5`: `Vx -= Vy`, wrapping, with the borrow flag.
    SubWithBorrow { x: u8, y: u8 },
    /// `8xy6`: `Vx >>= 1`, the flag taking the bit shifted out.
    ShiftRight { x: u8, y: u8 },
    /// `8xy7`: `Vx = Vy - Vx`, wrapping, with the borrow flag.
    ReverseSub { x: u8, y: u8 },
    /// `8xyE`: `Vx <<= 1`, the flag taking `Vx & 0x80`.
    ShiftLeft { x: u8, y: u8 },
    /// `9xy_`: skip the next instruction if `Vx != Vy`.
    SkipIfRegistersNotEqual { x: u8, y: u8 },
    /// `Annn`: `I = nnn`.
    LoadIndex { nnn: u16 },
    /// `Bnnn`: continue at `nnn + V0`.
    JumpWithOffset { nnn: u16 },
    /// `Cxnn`: `Vx = random byte & nn`.
    RandomAnd { x: u8, nn: u8 },
    /// `Dxyn`: draw the `n`-row sprite at `I` at `(Vx, Vy)`.
    Draw { x: u8, y: u8, n: u8 },
    /// `Ex9E`: skip the next instruction if key `Vx` is down.
    SkipIfKey { x: u8 },
    /// `ExA1`: skip the next instruction if key `Vx` is up.
    SkipIfNotKey { x: u8 },
    /// `Fx07`: `Vx = delay timer`.
    ReadDelayTimer { x: u8 },
    /// `Fx0A`: pause until a key is pressed, then store it in `Vx`.
    AwaitKey { x: u8 },
    /// `Fx15`: `delay timer = Vx`.
    SetDelayTimer { x: u8 },
    /// `Fx18`: `sound timer = Vx`.
    SetSoundTimer { x: u8 },
    /// `Fx1E`: `I += Vx`, wrapping at 16 bits.
    AddToIndex { x: u8 },
    /// `Fx29`: `I = Vx * 5`, the address of the font glyph for `Vx`.
    SpriteAddress { x: u8 },
    /// `Fx33`: store the decimal digits of `Vx` at `I`, `I + 1`, `I + 2`.
    StoreBcd { x: u8 },
    /// `Fx55`: store `V0 .. Vx` (excluding `Vx`) from `I` on.
    StoreRegisters { x: u8 },
    /// `Fx65`: load `V0 .. Vx` (excluding `Vx`) from `I` on.
    LoadRegisters { x: u8 },
}

/// The family: first nibble.
pub open spec fn family(op: u16) -> int {
    op as int / 0x1000
}

/// Second nibble.
pub open spec fn field_x(op: u16) -> u8 {
    ((op as int / 0x100) % 0x10) as u8
}

/// Third nibble.
pub open spec fn field_y(op: u16) -> u8 {
    ((op as int / 0x10) % 0x10) as u8
}

/// Last nibble.
pub open spec fn field_n(op: u16) -> u8 {
    (op as int % 0x10) as u8
}

/// Low byte.
pub open spec fn field_nn(op: u16) -> u8 {
    (op as int % 0x100) as u8
}

/// Low twelve bits.
pub open spec fn field_nnn(op: u16) -> u16 {
    (op as int % 0x1000) as u16
}

/// The instruction that `op` encodes, or `None` for a word outside the
/// instruction set.
pub open spec fn decode_spec(op: u16) -> Option<Instruction> {
    let x = field_x(op);
    let y = field_y(op);
    let n = field_n(op);
    let nn = field_nn(op);
    let nnn = field_nnn(op);
    let f = family(op);
    if f == 0x0 {
        if op == 0x00E0 {
            Some(Instruction::ClearScreen)
        } else if op == 0x00EE {
            Some(Instruction::Return)
        } else {
            None
        }
    } else if f == 0x1 {
        Some(Instruction::Jump { nnn })
    } else if f == 0x2 {
        Some(Instruction::Call { nnn })
    } else if f == 0x3 {
        Some(Instruction::SkipIfEqual { x, nn })
    } else if f == 0x4 {
        Some(Instruction::SkipIfNotEqual { x, nn })
    } else if f == 0x5 {
        Some(Instruction::SkipIfRegistersEqual { x, y })
    } else if f == 0x6 {
        Some(Instruction::LoadImmediate { x, nn })
    } else if f == 0x7 {
        Some(Instruction::AddImmediate { x, nn })
    } else if f == 0x8 {
        if n == 0x0 {
            Some(Instruction::Assign { x, y })
        } else if n == 0x1 {
            Some(Instruction::Or { x, y })
        } else if n == 0x2 {
            Some(Instruction::And { x, y })
        } else if n == 0x3 {
            Some(Instruction::Xor { x, y })
        } else if n == 0x4 {
            Some(Instruction::AddWithCarry { x, y })
        } else if n == 0x5 {
            Some(Instruction::SubWithBorrow { x, y })
        } else if n == 0x6 {
            Some(Instruction::ShiftRight { x, y })
        } else if n == 0x7 {
            Some(Instruction::ReverseSub { x, y })
        } else if n == 0xE {
            Some(Instruction::ShiftLeft { x, y })
        } else {
            None
        }
    } else if f == 0x9 {
        Some(Instruction::SkipIfRegistersNotEqual { x, y })
    } else if f == 0xA {
        Some(Instruction::LoadIndex { nnn })
    } else if f == 0xB {
        Some(Instruction::JumpWithOffset { nnn })
    } else if f == 0xC {
        Some(Instruction::RandomAnd { x, nn })
    } else if f == 0xD {
        Some(Instruction::Draw { x, y, n })
    } else if f == 0xE {
        if nn == 0x9E {
            Some(Instruction::SkipIfKey { x })
        } else if nn == 0xA1 {
            Some(Instruction::SkipIfNotKey { x })
        } else {
            None
        }
    } else {
        if nn == 0x07 {
            Some(Instruction::ReadDelayTimer { x })
        } else if nn == 0x0A {
            Some(Instruction::AwaitKey { x })
        } else if nn == 0x15 {
            Some(Instruction::SetDelayTimer { x })
        } else if nn == 0x18 {
            Some(Instruction::SetSoundTimer { x })
        } else if nn == 0x1E {
            Some(Instruction::AddToIndex { x })
        } else if nn == 0x29 {
            Some(Instruction::SpriteAddress { x })
        } else if nn == 0x33 {
            Some(Instruction::StoreBcd { x })
        } else if nn == 0x55 {
            Some(Instruction::StoreRegisters { x })
        } else if nn == 0x65 {
            Some(Instruction::LoadRegisters { x })
        } else {
            None
        }
    }
}

/// Splits `op` into its fields and picks the instruction it encodes.
pub fn decode(op: u16) -> (r: Option<Instruction>)
    ensures
        r == decode_spec(op),
{
    let x: u8 = ((op / 0x100) % 0x10) as u8;
    let y: u8 = ((op / 0x10) % 0x10) as u8;
    let n: u8 = (op % 0x10) as u8;
    let nn: u8 = (op % 0x100) as u8;
    let nnn: u16 = op % 0x1000;
    match op / 0x1000 {
        0x0 => {
            if op == 0x00E0 {
                Some(Instruction::ClearScreen)
            } else if op == 0x00EE {
                Some(Instruction::Return)
            } else {
                None
            }
        },
        0x1 => Some(Instruction::Jump { nnn }),
        0x2 => Some(Instruction::Call { nnn }),
        0x3 => Some(Instruction::SkipIfEqual { x, nn }),
        0x4 => Some(Instruction::SkipIfNotEqual { x, nn }),
        0x5 => Some(Instruction::SkipIfRegistersEqual { x, y }),
        0x6 => Some(Instruction::LoadImmediate { x, nn }),
        0x7 => Some(Instruction::AddImmediate { x, nn }),
        0x8 => match n {
            0x0 => Some(Instruction::Assign { x, y }),
            0x1 => Some(Instruction::Or { x, y }),
            0x2 => Some(Instruction::And { x, y }),
            0x3 => Some(Instruction::Xor { x, y }),
            0x4 => Some(Instruction::AddWithCarry { x, y }),
            0x5 => Some(Instruction::SubWithBorrow { x, y }),
            0x6 => Some(Instruction::ShiftRight { x, y }),
            0x7 => Some(Instruction::ReverseSub { x, y }),
            0xE => Some(Instruction::ShiftLeft { x, y }),
            _ => None,
        },
        0x9 => Some(Instruction::SkipIfRegistersNotEqual { x, y }),
        0xA => Some(Instruction::LoadIndex { nnn }),
        0xB => Some(Instruction::JumpWithOffset { nnn }),
        0xC => Some(Instruction::RandomAnd { x, nn }),
        0xD => Some(Instruction::Draw { x, y, n }),
        0xE => match nn {
            0x9E => Some(Instruction::SkipIfKey { x }),
            0xA1 => Some(Instruction::SkipIfNotKey { x }),
            _ => None,
        },
        _ => match nn {
            0x07 => Some(Instruction::ReadDelayTimer { x }),
            0x0A => Some(Instruction::AwaitKey { x }),
            0x15 => Some(Instruction::SetDelayTimer { x }),
            0x18 => Some(Instruction::SetSoundTimer { x }),
            0x1E => Some(Instruction::AddToIndex { x }),
            0x29 => Some(Instruction::SpriteAddress { x }),
            0x33 => Some(Instruction::StoreBcd { x }),
            0x55 => Some(Instruction::StoreRegisters { x }),
            0x65 => Some(Instruction::LoadRegisters { x }),
            _ => None,
        },
    }
}

/// Every decoded instruction has its register operands below 16, its
/// sprite height below 16 and its address below 4096.
pub open spec fn operands_in_range(ins: Instruction) -> bool {
    match ins {
        Instruction::Jump { nnn } | Instruction::Call { nnn } | Instruction::LoadIndex { nnn }
        | Instruction::JumpWithOffset { nnn } => nnn < 0x1000,
        Instruction::SkipIfEqual { x, .. } | Instruction::SkipIfNotEqual { x, .. }
        | Instruction::LoadImmediate { x, .. } | Instruction::AddImmediate { x, .. }
        | Instruction::RandomAnd { x, .. } | Instruction::SkipIfKey { x }
        | Instruction::SkipIfNotKey { x } | Instruction::ReadDelayTimer { x }
        | Instruction::AwaitKey { x } | Instruction::SetDelayTimer { x }
        | Instruction::SetSoundTimer { x } | Instruction::AddToIndex { x }
        | Instruction::SpriteAddress { x } | Instruction::StoreBcd { x }
        | Instruction::StoreRegisters { x } | Instruction::LoadRegisters { x } => x < 16,
        Instruction::SkipIfRegistersEqual { x, y } | Instruction::Assign { x, y }
        | Instruction::Or { x, y } | Instruction::And { x, y } | Instruction::Xor { x, y }
        | Instruction::AddWithCarry { x, y } | Instruction::SubWithBorrow { x, y }
        | Instruction::ShiftRight { x, y } | Instruction::ReverseSub { x, y }
        | Instruction::ShiftLeft { x, y } | Instruction::SkipIfRegistersNotEqual { x, y } => x < 16
            && y < 16,
        Instruction::Draw { x, y, n } => x < 16 && y < 16 && n < 16,
        Instruction::ClearScreen | Instruction::Return => true,
    }
}

/// Decoding yields only operands that fit their fields.
pub proof fn lemma_decoded_operands_in_range(op: u16)
    ensures
        decode_spec(op) matches Some(ins) ==> operands_in_range(ins),
{
}

} // verus!
