//! Instruction decoding: a 16-bit word is split into four nibbles and mapped
//! to exactly one recognized instruction kind, or to none.

use vstd::prelude::*;

verus! {

/// Most significant nibble of an instruction word.
pub open spec fn nib1(op: u16) -> u16 {
    (op & 0xF000) >> 12
}

/// Second nibble of an instruction word (the X register field).
pub open spec fn nib2(op: u16) -> u16 {
    (op & 0x0F00) >> 8
}

/// Third nibble of an instruction word (the Y register field).
pub open spec fn nib3(op: u16) -> u16 {
    (op & 0x00F0) >> 4
}

/// Least significant nibble of an instruction word.
pub open spec fn nib4(op: u16) -> u16 {
    op & 0x000F
}

/// The 12-bit address embedded in the low bits of an instruction word.
pub open spec fn op_nnn(op: u16) -> u16 {
    op & 0x0FFF
}

/// The 8-bit immediate embedded in the low bits of an instruction word.
pub open spec fn op_nn(op: u16) -> u8 {
    (op & 0x00FF) as u8
}

/// Ranges of the decoded fields: nibbles are 4-bit, addresses 12-bit.
pub proof fn lemma_op_field_bounds(op: u16)
    ensures
        nib1(op) < 16,
        nib2(op) < 16,
        nib3(op) < 16,
        nib4(op) < 16,
        op_nnn(op) < 4096,
{
    assert((op & 0xF000) >> 12 < 16 && (op & 0x0F00) >> 8 < 16 && (op & 0x00F0) >> 4 < 16
        && (op & 0x000F) < 16 && (op & 0x0FFF) < 4096) by (bit_vector);
}

/// The closed enumeration of recognized instructions, with their operand
/// fields extracted. `x` and `y` are register indices (always below 16),
/// `nn` an 8-bit immediate, `nnn` a 12-bit address, `n` a sprite height.
#[derive(Clone, Copy, Debug, PartialEq, Eq, Structural)]
pub enum Instr {
    /// 0000: no operation.
    Nop,
    /// 00E0: clear the screen.
    Cls,
    /// 00EE: pop a return address off the stack into the program counter.
    Ret,
    /// 1NNN: jump to the absolute address NNN.
    Jmp { nnn: u16 },
    /// 2NNN: push the program counter, then jump to NNN.
    Call { nnn: u16 },
    /// 3XNN: skip the next instruction word if register X equals NN.
    SkipEqNn { x: u8, nn: u8 },
    /// 4XNN: skip the next instruction word if register X differs from NN.
    SkipNeNn { x: u8, nn: u8 },
    /// 5XY0: skip the next instruction word if registers X and Y are equal.
    SkipEqReg { x: u8, y: u8 },
    /// 9XY0: skip the next instruction word if registers X and Y differ.
    SkipNeReg { x: u8, y: u8 },
    /// 6XNN: register X := NN.
    SetNn { x: u8, nn: u8 },
    /// 7XNN: register X := X + NN with 8-bit wraparound, no flag effect.
    AddNn { x: u8, nn: u8 },
    /// 8XY0: register X := register Y.
    MovReg { x: u8, y: u8 },
    /// 8XY1: register X := X | Y.
    OrReg { x: u8, y: u8 },
    /// 8XY2: register X := X & Y.
    AndReg { x: u8, y: u8 },
    /// 8XY3: register X := X ^ Y.
    XorReg { x: u8, y: u8 },
    /// 8XY4: register X := X + Y wrapped; flag register := carry.
    AddReg { x: u8, y: u8 },
    /// 8XY5: register X := X - Y wrapped; flag register := 1 iff no borrow.
    SubReg { x: u8, y: u8 },
    /// 8XY6: flag register := low bit of X; register X := X >> 1.
    ShrReg { x: u8 },
    /// 8XY7: register X := Y - X wrapped; flag register := 1 iff no borrow.
    SubFrom { x: u8, y: u8 },
    /// 8XYE: flag register := high bit of X; register X := X << 1 wrapped.
    ShlReg { x: u8 },
    /// ANNN: address register := NNN.
    SetI { nnn: u16 },
    /// BNNN: jump to NNN plus the value of register 0.
    JmpV0 { nnn: u16 },
    /// CXNN: register X := (random byte) & NN.
    Rand { x: u8, nn: u8 },
    /// DXYN: draw the N-row sprite at the address register, at the screen
    /// position held in registers X and Y; flag register := collision.
    Draw { x: u8, y: u8, n: u8 },
    /// EX9E: skip the next word if the key indexed by register X is pressed.
    SkipKey { x: u8 },
    /// EXA1: skip the next word if that key is not pressed.
    SkipNoKey { x: u8 },
    /// FX07: register X := delay timer.
    GetDelay { x: u8 },
    /// FX0A: wait for a key: capture the lowest pressed key index into
    /// register X, or rewind the program counter to retry.
    WaitKey { x: u8 },
    /// FX15: delay timer := register X.
    SetDelay { x: u8 },
    /// FX18: sound timer := register X.
    SetSound { x: u8 },
    /// FX1E: address register := address register + X, 16-bit wraparound.
    AddI { x: u8 },
    /// FX29: address register := address of the glyph for the value of X.
    FontChar { x: u8 },
    /// FX33: store the decimal digits of register X at the address register.
    Bcd { x: u8 },
    /// FX55: copy registers 0..=X to memory at the address register.
    StoreRegs { x: u8 },
    /// FX65: copy memory at the address register into registers 0..=X.
    LoadRegs { x: u8 },
}

/// The dispatch function over the four nibbles: exactly one recognized
/// pattern matches, or the word decodes to nothing.
pub open spec fn spec_decode(op: u16) -> Option<Instr> {
    let d1 = nib1(op);
    let d4 = nib4(op);
    let x = nib2(op) as u8;
    let y = nib3(op) as u8;
    let nn = op_nn(op);
    let nnn = op_nnn(op);
    if op == 0x0000 {
        Some(Instr::Nop)
    } else if op == 0x00E0 {
        Some(Instr::Cls)
    } else if op == 0x00EE {
        Some(Instr::Ret)
    } else if d1 == 0x1 {
        Some(Instr::Jmp { nnn })
    } else if d1 == 0x2 {
        Some(Instr::Call { nnn })
    } else if d1 == 0x3 {
        Some(Instr::SkipEqNn { x, nn })
    } else if d1 == 0x4 {
        Some(Instr::SkipNeNn { x, nn })
    } else if d1 == 0x5 && d4 == 0x0 {
        Some(Instr::SkipEqReg { x, y })
    } else if d1 == 0x6 {
        Some(Instr::SetNn { x, nn })
    } else if d1 == 0x7 {
        Some(Instr::AddNn { x, nn })
    } else if d1 == 0x8 {
        if d4 == 0x0 {
            Some(Instr::MovReg { x, y })
        } else if d4 == 0x1 {
            Some(Instr::OrReg { x, y })
        } else if d4 == 0x2 {
            Some(Instr::AndReg { x, y })
        } else if d4 == 0x3 {
            Some(Instr::XorReg { x, y })
        } else if d4 == 0x4 {
            Some(Instr::AddReg { x, y })
        } else if d4 == 0x5 {
            Some(Instr::SubReg { x, y })
        } else if d4 == 0x6 {
            Some(Instr::ShrReg { x })
        } else if d4 == 0x7 {
            Some(Instr::SubFrom { x, y })
        } else if d4 == 0xE {
            Some(Instr::ShlReg { x })
        } else {
            None
        }
    } else if d1 == 0x9 && d4 == 0x0 {
        Some(Instr::SkipNeReg { x, y })
    } else if d1 == 0xA {
        Some(Instr::SetI { nnn })
    } else if d1 == 0xB {
        Some(Instr::JmpV0 { nnn })
    } else if d1 == 0xC {
        Some(Instr::Rand { x, nn })
    } else if d1 == 0xD {
        Some(Instr::Draw { x, y, n: d4 as u8 })
    } else if d1 == 0xE && nib3(op) == 0x9 && d4 == 0xE {
        Some(Instr::SkipKey { x })
    } else if d1 == 0xE && nib3(op) == 0xA && d4 == 0x1 {
        Some(Instr::SkipNoKey { x })
    } else if d1 == 0xF && nib3(op) == 0x0 && d4 == 0x7 {
        Some(Instr::GetDelay { x })
    } else if d1 == 0xF && nib3(op) == 0x0 && d4 == 0xA {
        Some(Instr::WaitKey { x })
    } else if d1 == 0xF && nib3(op) == 0x1 && d4 == 0x5 {
        Some(Instr::SetDelay { x })
    } else if d1 == 0xF && nib3(op) == 0x1 && d4 == 0x8 {
        Some(Instr::SetSound { x })
    } else if d1 == 0xF && nib3(op) == 0x1 && d4 == 0xE {
        Some(Instr::AddI { x })
    } else if d1 == 0xF && nib3(op) == 0x2 && d4 == 0x9 {
        Some(Instr::FontChar { x })
    } else if d1 == 0xF && nib3(op) == 0x3 && d4 == 0x3 {
        Some(Instr::Bcd { x })
    } else if d1 == 0xF && nib3(op) == 0x5 && d4 == 0x5 {
        Some(Instr::StoreRegs { x })
    } else if d1 == 0xF && nib3(op) == 0x6 && d4 == 0x5 {
        Some(Instr::LoadRegs { x })
    } else {
        None
    }
}

/// Decode an instruction word, or report that no pattern matches.
pub fn decode(op: u16) -> (r: Option<Instr>)
    ensures
        r == spec_decode(op),
{
    let d1: u16 = (op & 0xF000) >> 12;
    let d3: u16 = (op & 0x00F0) >> 4;
    let d4: u16 = op & 0x000F;
    let x: u8 = ((op & 0x0F00) >> 8) as u8;
    let y: u8 = d3 as u8;
    let nn: u8 = (op & 0x00FF) as u8;
    let nnn: u16 = op & 0x0FFF;
    if op == 0x0000 {
        Some(Instr::Nop)
    } else if op == 0x00E0 {
        Some(Instr::Cls)
    } else if op == 0x00EE {
        Some(Instr::Ret)
    } else if d1 == 0x1 {
        Some(Instr::Jmp { nnn })
    } else if d1 == 0x2 {
        Some(Instr::Call { nnn })
    } else if d1 == 0x3 {
        Some(Instr::SkipEqNn { x, nn })
    } else if d1 == 0x4 {
        Some(Instr::SkipNeNn { x, nn })
    } else if d1 == 0x5 && d4 == 0x0 {
        Some(Instr::SkipEqReg { x, y })
    } else if d1 == 0x6 {
        Some(Instr::SetNn { x, nn })
    } else if d1 == 0x7 {
        Some(Instr::AddNn { x, nn })
    } else if d1 == 0x8 {
        if d4 == 0x0 {
            Some(Instr::MovReg { x, y })
        } else if d4 == 0x1 {
            Some(Instr::OrReg { x, y })
        } else if d4 == 0x2 {
            Some(Instr::AndReg { x, y })
        } else if d4 == 0x3 {
            Some(Instr::XorReg { x, y })
        } else if d4 == 0x4 {
            Some(Instr::AddReg { x, y })
        } else if d4 == 0x5 {
            Some(Instr::SubReg { x, y })
        } else if d4 == 0x6 {
            Some(Instr::ShrReg { x })
        } else if d4 == 0x7 {
            Some(Instr::SubFrom { x, y })
        } else if d4 == 0xE {
            Some(Instr::ShlReg { x })
        } else {
            None
        }
    } else if d1 == 0x9 && d4 == 0x0 {
        Some(Instr::SkipNeReg { x, y })
    } else if d1 == 0xA {
        Some(Instr::SetI { nnn })
    } else if d1 == 0xB {
        Some(Instr::JmpV0 { nnn })
    } else if d1 == 0xC {
        Some(Instr::Rand { x, nn })
    } else if d1 == 0xD {
        Some(Instr::Draw { x, y, n: d4 as u8 })
    } else if d1 == 0xE && d3 == 0x9 && d4 == 0xE {
        Some(Instr::SkipKey { x })
    } else if d1 == 0xE && d3 == 0xA && d4 == 0x1 {
        Some(Instr::SkipNoKey { x })
    } else if d1 == 0xF && d3 == 0x0 && d4 == 0x7 {
        Some(Instr::GetDelay { x })
    } else if d1 == 0xF && d3 == 0x0 && d4 == 0xA {
        Some(Instr::WaitKey { x })
    } else if d1 == 0xF && d3 == 0x1 && d4 == 0x5 {
        Some(Instr::SetDelay { x })
    } else if d1 == 0xF && d3 == 0x1 && d4 == 0x8 {
        Some(Instr::SetSound { x })
    } else if d1 == 0xF && d3 == 0x1 && d4 == 0xE {
        Some(Instr::AddI { x })
    } else if d1 == 0xF && d3 == 0x2 && d4 == 0x9 {
        Some(Instr::FontChar { x })
    } else if d1 == 0xF && d3 == 0x3 && d4 == 0x3 {
        Some(Instr::Bcd { x })
    } else if d1 == 0xF && d3 == 0x5 && d4 == 0x5 {
        Some(Instr::StoreRegs { x })
    } else if d1 == 0xF && d3 == 0x6 && d4 == 0x5 {
        Some(Instr::LoadRegs { x })
    } else {
        None
    }
}

} // verus!
