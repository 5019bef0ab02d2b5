use vstd::prelude::*;

verus! {

/// A decoded CHIP-8 instruction. `x` and `y` name registers V0..VF, `kk` is
/// an 8-bit immediate, `nnn` a 12-bit address and `n` a 4-bit row count.
#[derive(Debug, Clone, Copy, PartialEq, Eq, Structural)]
pub enum Instruction {
    /// 00E0: clear the screen.
    Cls,
    /// 00EE: return from a subroutine.
    Ret,
    /// 1nnn: jump to nnn.
    Jp { nnn: u16 },
    /// 2nnn: call the subroutine at nnn.
    Call { nnn: u16 },
    /// 3xkk: skip the next instruction if Vx == kk.
    SeVxByte { x: usize, kk: u8 },
    /// 4xkk: skip the next instruction if Vx != kk.
    SneVxByte { x: usize, kk: u8 },
    /// 5xy0: skip the next instruction if Vx == Vy.
    SeVxVy { x: usize, y: usize },
    /// 6xkk: Vx = kk.
    LdVxByte { x: usize, kk: u8 },
    /// 7xkk: Vx = Vx + kk, wrapping.
    AddVxByte { x: usize, kk: u8 },
    /// 8xy0: Vx = Vy.
    LdVxVy { x: usize, y: usize },
    /// 8xy1: Vx = Vx | Vy.
    OrVxVy { x: usize, y: usize },
    /// 8xy2: Vx = Vx & Vy.
    AndVxVy { x: usize, y: usize },
    /// 8xy3: Vx = Vx ^ Vy.
    XorVxVy { x: usize, y: usize },
    /// 8xy4: Vx = Vx + Vy, wrapping; VF = carry.
    AddVxVy { x: usize, y: usize },
    /// 8xy5: VF = Vx > Vy; Vx = Vx - Vy, wrapping.
    SubVxVy { x: usize, y: usize },
    /// 8xy6: VF = Vx & 1; Vx = Vx >> 1.
    ShrVx { x: usize },
    /// 8xy7: VF = Vy > Vx; Vx = Vy - Vx, wrapping.
    SubnVxVy { x: usize, y: usize },
    /// 8xyE: VF = Vx & 0x80; Vx = Vx << 1.
    ShlVx { x: usize },
    /// 9xy0: skip the next instruction if Vx != Vy.
    SneVxVy { x: usize, y: usize },
    /// Annn: I = nnn.
    LdI { nnn: u16 },
    /// Bnnn: jump to nnn + V0.
    JpV0 { nnn: u16 },
    /// Cxkk: Vx = random byte & kk.
    Rnd { x: usize, kk: u8 },
    /// Dxyn: draw the n-row sprite at I at (Vx, Vy); VF = collision.
    Drw { x: usize, y: usize, n: usize },
    /// Ex9E: skip the next instruction if key Vx is down.
    Skp { x: usize },
    /// ExA1: skip the next instruction if key Vx is up.
    Sknp { x: usize },
    /// Fx07: Vx = delay timer.
    LdVxDt { x: usize },
    /// Fx0A: wait for a key press and store its index in Vx.
    LdVxK { x: usize },
    /// Fx15: delay timer = Vx.
    LdDtVx { x: usize },
    /// Fx18: sound timer = Vx.
    LdStVx { x: usize },
    /// Fx1E: I = I + Vx, wrapping.
    AddIVx { x: usize },
    /// Fx29: I = address of the font glyph for Vx.
    LdFVx { x: usize },
    /// Fx33: store the decimal digits of Vx at I, I+1, I+2.
    LdBVx { x: usize },
    /// Fx55: store V0..Vx at I..I+x.
    LdIVx { x: usize },
    /// Fx65: load V0..Vx from I..I+x.
    LdVxI { x: usize },
}

/// Bits 11..8 of an instruction word.
pub open spec fn op_x(op: u16) -> usize {
    ((op >> 8u16) & 0x000Fu16) as usize
}

/// Bits 7..4 of an instruction word.
pub open spec fn op_y(op: u16) -> usize {
    ((op >> 4u16) & 0x000Fu16) as usize
}

/// Bits 3..0 of an instruction word.
pub open spec fn op_n(op: u16) -> usize {
    (op & 0x000Fu16) as usize
}

/// Bits 7..0 of an instruction word.
pub open spec fn op_kk(op: u16) -> u8 {
    (op & 0x00FFu16) as u8
}

/// Bits 11..0 of an instruction word.
pub open spec fn op_nnn(op: u16) -> u16 {
    op & 0x0FFFu16
}

/// The instruction a word encodes, or `None` for an illegal word.
pub open spec fn decode_spec(op: u16) -> Option<Instruction> {
    let x = op_x(op);
    let y = op_y(op);
    let n = op_n(op);
    let kk = op_kk(op);
    let nnn = op_nnn(op);
    if op == 0x00E0 {
        Some(Instruction::Cls)
    } else if op == 0x00EE {
        Some(Instruction::Ret)
    } else {
        match op & 0xF000u16 {
            0x1000u16 => Some(Instruction::Jp { nnn }),
            0x2000u16 => Some(Instruction::Call { nnn }),
            0x3000u16 => Some(Instruction::SeVxByte { x, kk }),
            0x4000u16 => Some(Instruction::SneVxByte { x, kk }),
            0x5000u16 => if n == 0 {
                Some(Instruction::SeVxVy { x, y })
            } else {
                None
            },
            0x6000u16 => Some(Instruction::LdVxByte { x, kk }),
            0x7000u16 => Some(Instruction::AddVxByte { x, kk }),
            0x8000u16 => match n {
                0 => Some(Instruction::LdVxVy { x, y }),
                1 => Some(Instruction::OrVxVy { x, y }),
                2 => Some(Instruction::AndVxVy { x, y }),
                3 => Some(Instruction::XorVxVy { x, y }),
                4 => Some(Instruction::AddVxVy { x, y }),
                5 => Some(Instruction::SubVxVy { x, y }),
                6 => Some(Instruction::ShrVx { x }),
                7 => Some(Instruction::SubnVxVy { x, y }),
                0xE => Some(Instruction::ShlVx { x }),
                _ => None,
            },
            0x9000u16 => if n == 0 {
                Some(Instruction::SneVxVy { x, y })
            } else {
                None
            },
            0xA000u16 => Some(Instruction::LdI { nnn }),
            0xB000u16 => Some(Instruction::JpV0 { nnn }),
            0xC000u16 => Some(Instruction::Rnd { x, kk }),
            0xD000u16 => Some(Instruction::Drw { x, y, n }),
            0xE000u16 => match kk {
                0x9Eu8 => Some(Instruction::Skp { x }),
                0xA1u8 => Some(Instruction::Sknp { x }),
                _ => None,
            },
            0xF000u16 => match kk {
                0x07u8 => Some(Instruction::LdVxDt { x }),
                0x0Au8 => Some(Instruction::LdVxK { x }),
                0x15u8 => Some(Instruction::LdDtVx { x }),
                0x18u8 => Some(Instruction::LdStVx { x }),
                0x1Eu8 => Some(Instruction::AddIVx { x }),
                0x29u8 => Some(Instruction::LdFVx { x }),
                0x33u8 => Some(Instruction::LdBVx { x }),
                0x55u8 => Some(Instruction::LdIVx { x }),
                0x65u8 => Some(Instruction::LdVxI { x }),
                _ => None,
            },
            _ => None,
        }
    }
}

impl Instruction {
    /// Register operands name V0..VF, row counts fit a nibble and addresses
    /// fit twelve bits.
    pub open spec fn wf(self) -> bool {
        match self {
            Instruction::Cls | Instruction::Ret => true,
            Instruction::Jp { nnn } | Instruction::Call { nnn } | Instruction::LdI { nnn }
            | Instruction::JpV0 { nnn } => nnn < 0x1000,
            Instruction::SeVxByte { x, .. } | Instruction::SneVxByte { x, .. }
            | Instruction::LdVxByte { x, .. } | Instruction::AddVxByte { x, .. }
            | Instruction::Rnd { x, .. } => x < 16,
            Instruction::SeVxVy { x, y } | Instruction::LdVxVy { x, y } | Instruction::OrVxVy { x, y }
            | Instruction::AndVxVy { x, y } | Instruction::XorVxVy { x, y }
            | Instruction::AddVxVy { x, y } | Instruction::SubVxVy { x, y }
            | Instruction::SubnVxVy { x, y } | Instruction::SneVxVy { x, y } => x < 16 && y < 16,
            Instruction::Drw { x, y, n } => x < 16 && y < 16 && n < 16,
            Instruction::ShrVx { x } | Instruction::ShlVx { x } | Instruction::Skp { x }
            | Instruction::Sknp { x } | Instruction::LdVxDt { x } | Instruction::LdVxK { x }
            | Instruction::LdDtVx { x } | Instruction::LdStVx { x } | Instruction::AddIVx { x }
            | Instruction::LdFVx { x } | Instruction::LdBVx { x } | Instruction::LdIVx { x }
            | Instruction::LdVxI { x } => x < 16,
        }
    }
}

/// Every instruction that a word decodes to is well formed.
pub proof fn lemma_decode_wf(op: u16)
    ensures
        decode_spec(op) matches Some(ins) ==> ins.wf(),
{
    assert(((op >> 8u16) & 0x000Fu16) < 16) by (bit_vector);
    assert(((op >> 4u16) & 0x000Fu16) < 16) by (bit_vector);
    assert((op & 0x000Fu16) < 16) by (bit_vector);
    assert((op & 0x0FFFu16) < 0x1000) by (bit_vector);
}

/// Decodes an instruction word.
pub fn decode(opcode: u16) -> (r: Option<Instruction>)
    ensures
        r == decode_spec(opcode),
        r matches Some(ins) ==> ins.wf(),
{
    proof {
        lemma_decode_wf(opcode);
    }
    let nnn = opcode & 0x0FFF;
    let n = (opcode & 0x000F) as usize;
    let x = ((opcode >> 8) & 0x000F) as usize;
    let y = ((opcode >> 4) & 0x000F) as usize;
    let kk = (opcode & 0x00FF) as u8;
    if opcode == 0x00E0 {
        return Some(Instruction::Cls);
    }
    if opcode == 0x00EE {
        return Some(Instruction::Ret);
    }
    match opcode & 0xF000 {
        0x1000 => Some(Instruction::Jp { nnn }),
        0x2000 => Some(Instruction::Call { nnn }),
        0x3000 => Some(Instruction::SeVxByte { x, kk }),
        0x4000 => Some(Instruction::SneVxByte { x, kk }),
        0x5000 => if n == 0 {
            Some(Instruction::SeVxVy { x, y })
        } else {
            None
        },
        0x6000 => Some(Instruction::LdVxByte { x, kk }),
        0x7000 => Some(Instruction::AddVxByte { x, kk }),
        0x8000 => match n {
            0 => Some(Instruction::LdVxVy { x, y }),
            1 => Some(Instruction::OrVxVy { x, y }),
            2 => Some(Instruction::AndVxVy { x, y }),
            3 => Some(Instruction::XorVxVy { x, y }),
            4 => Some(Instruction::AddVxVy { x, y }),
            5 => Some(Instruction::SubVxVy { x, y }),
            6 => Some(Instruction::ShrVx { x }),
            7 => Some(Instruction::SubnVxVy { x, y }),
            0xE => Some(Instruction::ShlVx { x }),
            _ => None,
        },
        0x9000 => if n == 0 {
            Some(Instruction::SneVxVy { x, y })
        } else {
            None
        },
        0xA000 => Some(Instruction::LdI { nnn }),
        0xB000 => Some(Instruction::JpV0 { nnn }),
        0xC000 => Some(Instruction::Rnd { x, kk }),
        0xD000 => Some(Instruction::Drw { x, y, n }),
        0xE000 => match kk {
            0x9E => Some(Instruction::Skp { x }),
            0xA1 => Some(Instruction::Sknp { x }),
            _ => None,
        },
        0xF000 => match kk {
            0x07 => Some(Instruction::LdVxDt { x }),
            0x0A => Some(Instruction::LdVxK { x }),
            0x15 => Some(Instruction::LdDtVx { x }),
            0x18 => Some(Instruction::LdStVx { x }),
            0x1E => Some(Instruction::AddIVx { x }),
            0x29 => Some(Instruction::LdFVx { x }),
            0x33 => Some(Instruction::LdBVx { x }),
            0x55 => Some(Instruction::LdIVx { x }),
            0x65 => Some(Instruction::LdVxI { x }),
            _ => None,
        },
        _ => None,
    }
}

} // verus!
