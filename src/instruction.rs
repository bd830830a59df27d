use vstd::prelude::*;

verus! {

/// One decoded instruction. Register operands are nibbles (below 16),
/// addresses are twelve bits wide (below 4096).
#[derive(Debug, Clone, Copy, PartialEq, Eq, Structural)]
pub enum Instruction {
    /// `00E0`: clear the display.
    Clear,
    /// `00EE`: return from a subroutine.
    Return,
    /// `1nnn`: jump to `nnn`.
    Jump(u16),
    /// `2nnn`: call the subroutine at `nnn`.
    Call(u16),
    /// `3xkk`: skip the next instruction if `Vx == kk`.
    SkipEqByte(u8, u8),
    /// `4xkk`: skip the next instruction if `Vx != kk`.
    SkipNeByte(u8, u8),
    /// `5xy0`: skip the next instruction if `Vx == Vy`.
    SkipEqReg(u8, u8),
    /// `6xkk`: `Vx = kk`.
    LoadByte(u8, u8),
    /// `7xkk`: `Vx = Vx + kk`, wrapping, without carry.
    AddByte(u8, u8),
    /// `8xy0`: `Vx = Vy`.
    Move(u8, u8),
    /// `8xy1`: `Vx = Vx | Vy`.
    Or(u8, u8),
    /// `8xy2`: `Vx = Vx & Vy`.
    And(u8, u8),
    /// `8xy3`: `Vx = Vx ^ Vy`.
    Xor(u8, u8),
    /// `8xy4`: `Vx = Vx + Vy`, `VF` = carry.
    AddReg(u8, u8),
    /// `8xy5`: `Vx = Vx - Vy`, `VF` = no borrow.
    Sub(u8, u8),
    /// `8xy6`: `Vx = Vx >> 1`, `VF` = the bit shifted out.
    ShiftRight(u8, u8),
    /// `8xy7`: `Vx = Vy - Vx`, `VF` = no borrow.
    SubReverse(u8, u8),
    /// `8xyE`: `Vx = Vx << 1`, `VF` = the bit shifted out.
    ShiftLeft(u8, u8),
    /// `9xy0`: skip the next instruction if `Vx != Vy`.
    SkipNeReg(u8, u8),
    /// `Annn`: `I = nnn`.
    LoadIndex(u16),
    /// `Bnnn`: jump to `nnn + V0`.
    JumpOffset(u16),
    /// `Cxkk`: `Vx = random & kk`.
    Random(u8, u8),
    /// `Dxyn`: draw `n` sprite rows from `I` at `(Vx, Vy)`, `VF` = collision.
    Draw(u8, u8, u8),
    /// `Ex9E`: skip the next instruction if key `Vx` is pressed.
    SkipKey(u8),
    /// `ExA1`: skip the next instruction if key `Vx` is not pressed.
    SkipNoKey(u8),
    /// `Fx07`: `Vx = delay timer`.
    LoadDelay(u8),
    /// `Fx0A`: wait for a key press and store its index in `Vx`.
    WaitKey(u8),
    /// `Fx15`: `delay timer = Vx`.
    SetDelay(u8),
    /// `Fx18`: `sound timer = Vx`.
    SetSound(u8),
    /// `Fx1E`: `I = I + Vx`, wrapping at sixteen bits.
    AddIndex(u8),
    /// `Fx29`: `I` = address of the font sprite for digit `Vx`.
    LoadFont(u8),
    /// `Fx33`: store the decimal digits of `Vx` at `I`, `I + 1`, `I + 2`.
    StoreBcd(u8),
    /// `Fx55`: store `V0..=Vx` in memory from `I`.
    StoreRegs(u8),
    /// `Fx65`: load `V0..=Vx` from memory from `I`.
    LoadRegs(u8),
}

impl Instruction {
    /// Every operand fits the field of the opcode it was decoded from.
    pub open spec fn wf(self) -> bool {
        match self {
            Instruction::Jump(a) | Instruction::Call(a) | Instruction::LoadIndex(a)
            | Instruction::JumpOffset(a) => a < 4096,
            Instruction::SkipEqByte(x, _) | Instruction::SkipNeByte(x, _)
            | Instruction::LoadByte(x, _) | Instruction::AddByte(x, _)
            | Instruction::Random(x, _) => x < 16,
            Instruction::SkipEqReg(x, y) | Instruction::Move(x, y) | Instruction::Or(x, y)
            | Instruction::And(x, y) | Instruction::Xor(x, y) | Instruction::AddReg(x, y)
            | Instruction::Sub(x, y) | Instruction::ShiftRight(x, y)
            | Instruction::SubReverse(x, y) | Instruction::ShiftLeft(x, y)
            | Instruction::SkipNeReg(x, y) => x < 16 && y < 16,
            Instruction::Draw(x, y, n) => x < 16 && y < 16 && n < 16,
            Instruction::SkipKey(x) | Instruction::SkipNoKey(x) | Instruction::LoadDelay(x)
            | Instruction::WaitKey(x) | Instruction::SetDelay(x) | Instruction::SetSound(x)
            | Instruction::AddIndex(x) | Instruction::LoadFont(x) | Instruction::StoreBcd(x)
            | Instruction::StoreRegs(x) | Instruction::LoadRegs(x) => x < 16,
            _ => true,
        }
    }
}

/// The second nibble of an opcode.
pub open spec fn op_x(op: u16) -> u8 {
    ((op / 256) % 16) as u8
}

/// The third nibble of an opcode.
pub open spec fn op_y(op: u16) -> u8 {
    ((op / 16) % 16) as u8
}

/// The last nibble of an opcode.
pub open spec fn op_n(op: u16) -> u8 {
    (op % 16) as u8
}

/// The low byte of an opcode.
pub open spec fn op_kk(op: u16) -> u8 {
    (op % 256) as u8
}

/// The low twelve bits of an opcode.
pub open spec fn op_nnn(op: u16) -> u16 {
    (op % 4096) as u16
}

/// The instruction that an opcode encodes, or `None` for an unknown pattern.
pub open spec fn decode_spec(op: u16) -> Option<Instruction> {
    let family = op / 4096;
    let x = op_x(op);
    let y = op_y(op);
    let n = op_n(op);
    let kk = op_kk(op);
    let nnn = op_nnn(op);
    if family == 0 {
        if op == 0x00E0 {
            Some(Instruction::Clear)
        } else if op == 0x00EE {
            Some(Instruction::Return)
        } else {
            None
        }
    } else if family == 1 {
        Some(Instruction::Jump(nnn))
    } else if family == 2 {
        Some(Instruction::Call(nnn))
    } else if family == 3 {
        Some(Instruction::SkipEqByte(x, kk))
    } else if family == 4 {
        Some(Instruction::SkipNeByte(x, kk))
    } else if family == 5 {
        Some(Instruction::SkipEqReg(x, y))
    } else if family == 6 {
        Some(Instruction::LoadByte(x, kk))
    } else if family == 7 {
        Some(Instruction::AddByte(x, kk))
    } else if family == 8 {
        if n == 0 {
            Some(Instruction::Move(x, y))
        } else if n == 1 {
            Some(Instruction::Or(x, y))
        } else if n == 2 {
            Some(Instruction::And(x, y))
        } else if n == 3 {
            Some(Instruction::Xor(x, y))
        } else if n == 4 {
            Some(Instruction::AddReg(x, y))
        } else if n == 5 {
            Some(Instruction::Sub(x, y))
        } else if n == 6 {
            Some(Instruction::ShiftRight(x, y))
        } else if n == 7 {
            Some(Instruction::SubReverse(x, y))
        } else if n == 0xE {
            Some(Instruction::ShiftLeft(x, y))
        } else {
            None
        }
    } else if family == 9 {
        Some(Instruction::SkipNeReg(x, y))
    } else if family == 0xA {
        Some(Instruction::LoadIndex(nnn))
    } else if family == 0xB {
        Some(Instruction::JumpOffset(nnn))
    } else if family == 0xC {
        Some(Instruction::Random(x, kk))
    } else if family == 0xD {
        Some(Instruction::Draw(x, y, n))
    } else if family == 0xE {
        if kk == 0x9E {
            Some(Instruction::SkipKey(x))
        } else if kk == 0xA1 {
            Some(Instruction::SkipNoKey(x))
        } else {
            None
        }
    } else {
        if kk == 0x07 {
            Some(Instruction::LoadDelay(x))
        } else if kk == 0x0A {
            Some(Instruction::WaitKey(x))
        } else if kk == 0x15 {
            Some(Instruction::SetDelay(x))
        } else if kk == 0x18 {
            Some(Instruction::SetSound(x))
        } else if kk == 0x1E {
            Some(Instruction::AddIndex(x))
        } else if kk == 0x29 {
            Some(Instruction::LoadFont(x))
        } else if kk == 0x33 {
            Some(Instruction::StoreBcd(x))
        } else if kk == 0x55 {
            Some(Instruction::StoreRegs(x))
        } else if kk == 0x65 {
            Some(Instruction::LoadRegs(x))
        } else {
            None
        }
    }
}

/// Decodes a sixteen-bit opcode into an instruction; `None` for a bit
/// pattern outside the instruction set.
pub fn decode(op: u16) -> (r: Option<Instruction>)
    ensures
        r == decode_spec(op),
        r matches Some(ins) ==> ins.wf(),
{
    let family = op / 4096;
    let x = ((op / 256) % 16) as u8;
    let y = ((op / 16) % 16) as u8;
    let n = (op % 16) as u8;
    let kk = (op % 256) as u8;
    let nnn = op % 4096;
    match family {
        0 => {
            if op == 0x00E0 {
                Some(Instruction::Clear)
            } else if op == 0x00EE {
                Some(Instruction::Return)
            } else {
                None
            }
        },
        1 => Some(Instruction::Jump(nnn)),
        2 => Some(Instruction::Call(nnn)),
        3 => Some(Instruction::SkipEqByte(x, kk)),
        4 => Some(Instruction::SkipNeByte(x, kk)),
        5 => Some(Instruction::SkipEqReg(x, y)),
        6 => Some(Instruction::LoadByte(x, kk)),
        7 => Some(Instruction::AddByte(x, kk)),
        8 => match n {
            0 => Some(Instruction::Move(x, y)),
            1 => Some(Instruction::Or(x, y)),
            2 => Some(Instruction::And(x, y)),
            3 => Some(Instruction::Xor(x, y)),
            4 => Some(Instruction::AddReg(x, y)),
            5 => Some(Instruction::Sub(x, y)),
            6 => Some(Instruction::ShiftRight(x, y)),
            7 => Some(Instruction::SubReverse(x, y)),
            0xE => Some(Instruction::ShiftLeft(x, y)),
            _ => None,
        },
        9 => Some(Instruction::SkipNeReg(x, y)),
        0xA => Some(Instruction::LoadIndex(nnn)),
        0xB => Some(Instruction::JumpOffset(nnn)),
        0xC => Some(Instruction::Random(x, kk)),
        0xD => Some(Instruction::Draw(x, y, n)),
        0xE => match kk {
            0x9E => Some(Instruction::SkipKey(x)),
            0xA1 => Some(Instruction::SkipNoKey(x)),
            _ => None,
        },
        _ => match kk {
            0x07 => Some(Instruction::LoadDelay(x)),
            0x0A => Some(Instruction::WaitKey(x)),
            0x15 => Some(Instruction::SetDelay(x)),
            0x18 => Some(Instruction::SetSound(x)),
            0x1E => Some(Instruction::AddIndex(x)),
            0x29 => Some(Instruction::LoadFont(x)),
            0x33 => Some(Instruction::StoreBcd(x)),
            0x55 => Some(Instruction::StoreRegs(x)),
            0x65 => Some(Instruction::LoadRegs(x)),
            _ => None,
        },
    }
}

} // verus!
