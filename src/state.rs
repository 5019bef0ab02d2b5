use vstd::prelude::*;

use crate::config::{key_index_of, CHIP8_DEFAULT_SPRITE_HEIGHT};
use crate::error::Chip8Error;
use crate::instruction::{decode_spec, Instruction};
use crate::screen::{draw_collides, draw_rows};

verus! {

/// The abstract state of a machine: what a program can observe or change.
#[verifier::ext_equal]
pub struct MachineState {
    /// The 4096 bytes of memory.
    pub memory: Seq<u8>,
    /// The sixteen registers V0..VF.
    pub v: Seq<u8>,
    /// The index register I.
    pub i: u16,
    /// The program counter.
    pub pc: u16,
    /// The number of return addresses on the stack.
    pub sp: u8,
    /// The delay timer.
    pub dt: u8,
    /// The sound timer.
    pub st: u8,
    /// The sixteen stack slots; the first `sp` hold return addresses.
    pub stack: Seq<u16>,
    /// The framebuffer, row-major, 64 pixels wide.
    pub pixels: Seq<bool>,
    /// Which of the sixteen keypad keys are down.
    pub keys: Seq<bool>,
    /// The register awaiting a key press, while a key wait is pending.
    pub waiting: Option<usize>,
    /// Whether the host is told to play the tone.
    pub audio_playing: bool,
}

/// `a + b` modulo 2^16.
pub open spec fn add_u16(a: int, b: int) -> u16 {
    ((a + b) % 0x10000) as u16
}

/// `a + b` modulo 2^8.
pub open spec fn add_u8(a: int, b: int) -> u8 {
    ((a + b) % 0x100) as u8
}

/// `a - b` modulo 2^8.
pub open spec fn sub_u8(a: u8, b: u8) -> u8 {
    if a >= b {
        (a - b) as u8
    } else {
        (a + 0x100 - b) as u8
    }
}

/// The flag value of a condition: 1 when it holds, 0 otherwise.
pub open spec fn flag(b: bool) -> u8 {
    if b {
        1
    } else {
        0
    }
}

/// The instruction word stored big-endian at `addr`.
pub open spec fn fetch_spec(memory: Seq<u8>, addr: int) -> u16 {
    (memory[addr] as int * 256 + memory[addr + 1] as int) as u16
}

impl MachineState {
    /// Sizes of the fixed components, and the bounds on the stack pointer and
    /// on a pending key wait.
    pub open spec fn wf(self) -> bool {
        &&& self.memory.len() == 4096
        &&& self.v.len() == 16
        &&& self.stack.len() == 16
        &&& self.pixels.len() == 2048
        &&& self.keys.len() == 16
        &&& self.sp <= 16
        &&& self.waiting matches Some(x) ==> x < 16
    }

    pub open spec fn with_v(self, v: Seq<u8>) -> MachineState {
        MachineState { v, ..self }
    }

    pub open spec fn with_pc(self, pc: u16) -> MachineState {
        MachineState { pc, ..self }
    }

    pub open spec fn with_i(self, i: u16) -> MachineState {
        MachineState { i, ..self }
    }

    /// Skips the next instruction when `cond` holds.
    pub open spec fn skip_if(self, cond: bool) -> MachineState {
        if cond {
            self.with_pc(add_u16(self.pc as int, 2))
        } else {
            self
        }
    }

    /// Whether keypad key `k` is down; a value past the keypad is never down.
    pub open spec fn key_pressed(self, k: u8) -> bool {
        k < 16 && self.keys[k as int]
    }

    /// 00E0.
    pub open spec fn cls(self) -> MachineState {
        MachineState { pixels: Seq::new(2048, |k: int| false), ..self }
    }

    /// 00EE, on a non-empty stack.
    pub open spec fn ret(self) -> MachineState {
        MachineState { sp: (self.sp - 1) as u8, pc: self.stack[self.sp - 1], ..self }
    }

    /// 2nnn, on a stack with a free slot.
    pub open spec fn call(self, nnn: u16) -> MachineState {
        MachineState {
            stack: self.stack.update(self.sp as int, self.pc),
            sp: (self.sp + 1) as u8,
            pc: nnn,
            ..self
        }
    }

    /// 8xy4.
    pub open spec fn add_vx_vy(self, x: usize, y: usize) -> MachineState {
        let sum = self.v[x as int] + self.v[y as int];
        self.with_v(self.v.update(x as int, add_u8(self.v[x as int] as int, self.v[y as int] as int)).update(
            15,
            flag(sum > 255),
        ))
    }

    /// 8xy5: the flag is written first, then Vx.
    pub open spec fn sub_vx_vy(self, x: usize, y: usize) -> MachineState {
        let v1 = self.v.update(15, flag(self.v[x as int] > self.v[y as int]));
        self.with_v(v1.update(x as int, sub_u8(v1[x as int], v1[y as int])))
    }

    /// 8xy6: the flag is written first, then Vx.
    pub open spec fn shr_vx(self, x: usize) -> MachineState {
        let v1 = self.v.update(15, self.v[x as int] & 1u8);
        self.with_v(v1.update(x as int, v1[x as int] >> 1u8))
    }

    /// 8xy7: the flag is written first, then Vx.
    pub open spec fn subn_vx_vy(self, x: usize, y: usize) -> MachineState {
        let v1 = self.v.update(15, flag(self.v[y as int] > self.v[x as int]));
        self.with_v(v1.update(x as int, sub_u8(v1[y as int], v1[x as int])))
    }

    /// 8xyE: the flag (the unshifted high bit) is written first, then Vx.
    pub open spec fn shl_vx(self, x: usize) -> MachineState {
        let v1 = self.v.update(15, self.v[x as int] & 0x80u8);
        self.with_v(v1.update(x as int, v1[x as int] << 1u8))
    }

    /// The sprite of `n` rows at I.
    pub open spec fn sprite_at_i(self, n: usize) -> Seq<u8> {
        self.memory.subrange(self.i as int, self.i + n)
    }

    /// Dxyn, with the sprite inside memory.
    pub open spec fn drw(self, x: usize, y: usize, n: usize) -> MachineState {
        let sprite = self.sprite_at_i(n);
        let vx = self.v[x as int] as int;
        let vy = self.v[y as int] as int;
        MachineState {
            pixels: draw_rows(self.pixels, vx, vy, sprite, n as nat),
            v: self.v.update(15, flag(draw_collides(self.pixels, vx, vy, sprite, n as nat))),
            ..self
        }
    }

    /// Fx33, with the three bytes inside memory.
    pub open spec fn ld_b_vx(self, x: usize) -> MachineState {
        let value = self.v[x as int];
        let i = self.i as int;
        MachineState {
            memory: self.memory.update(i, value / 100).update(i + 1, value / 10 % 10).update(i + 2, value % 10),
            ..self
        }
    }

    /// Fx55: V0..Vx (x + 1 registers) go to memory from I on.
    pub open spec fn ld_i_vx(self, x: usize) -> MachineState {
        let i = self.i as int;
        MachineState {
            memory: Seq::new(
                self.memory.len(),
                |k: int|
                    if i <= k <= i + x {
                        self.v[k - i]
                    } else {
                        self.memory[k]
                    },
            ),
            ..self
        }
    }

    /// Fx65: V0..Vx (x + 1 registers) come from memory from I on.
    pub open spec fn ld_vx_i(self, x: usize) -> MachineState {
        let i = self.i as int;
        self.with_v(
            Seq::new(
                self.v.len(),
                |j: int|
                    if j <= x {
                        self.memory[i + j]
                    } else {
                        self.v[j]
                    },
            ),
        )
    }

    /// What executing `ins` does, with the program counter already past it.
    /// `address` is where the instruction was fetched, `rnd` the random byte
    /// that Cxkk draws.
    pub open spec fn execute(self, ins: Instruction, address: u16, rnd: u8) -> Result<
        MachineState,
        Chip8Error,
    > {
        let v = self.v;
        match ins {
            Instruction::Cls => Ok(self.cls()),
            Instruction::Ret => if self.sp == 0 {
                Err(Chip8Error::StackUnderflow { address })
            } else {
                Ok(self.ret())
            },
            Instruction::Jp { nnn } => Ok(self.with_pc(nnn)),
            Instruction::Call { nnn } => if self.sp >= 16 {
                Err(Chip8Error::StackOverflow { address })
            } else {
                Ok(self.call(nnn))
            },
            Instruction::SeVxByte { x, kk } => Ok(self.skip_if(v[x as int] == kk)),
            Instruction::SneVxByte { x, kk } => Ok(self.skip_if(v[x as int] != kk)),
            Instruction::SeVxVy { x, y } => Ok(self.skip_if(v[x as int] == v[y as int])),
            Instruction::LdVxByte { x, kk } => Ok(self.with_v(v.update(x as int, kk))),
            Instruction::AddVxByte { x, kk } => Ok(
                self.with_v(v.update(x as int, add_u8(v[x as int] as int, kk as int))),
            ),
            Instruction::LdVxVy { x, y } => Ok(self.with_v(v.update(x as int, v[y as int]))),
            Instruction::OrVxVy { x, y } => Ok(
                self.with_v(v.update(x as int, v[x as int] | v[y as int])),
            ),
            Instruction::AndVxVy { x, y } => Ok(
                self.with_v(v.update(x as int, v[x as int] & v[y as int])),
            ),
            Instruction::XorVxVy { x, y } => Ok(
                self.with_v(v.update(x as int, v[x as int] ^ v[y as int])),
            ),
            Instruction::AddVxVy { x, y } => Ok(self.add_vx_vy(x, y)),
            Instruction::SubVxVy { x, y } => Ok(self.sub_vx_vy(x, y)),
            Instruction::ShrVx { x } => Ok(self.shr_vx(x)),
            Instruction::SubnVxVy { x, y } => Ok(self.subn_vx_vy(x, y)),
            Instruction::ShlVx { x } => Ok(self.shl_vx(x)),
            Instruction::SneVxVy { x, y } => Ok(self.skip_if(v[x as int] != v[y as int])),
            Instruction::LdI { nnn } => Ok(self.with_i(nnn)),
            Instruction::JpV0 { nnn } => Ok(self.with_pc(add_u16(nnn as int, v[0] as int))),
            Instruction::Rnd { x, kk } => Ok(self.with_v(v.update(x as int, rnd & kk))),
            Instruction::Drw { x, y, n } => if self.i + n > 4096 {
                Err(Chip8Error::MemoryOutOfBounds { address })
            } else {
                Ok(self.drw(x, y, n))
            },
            Instruction::Skp { x } => Ok(self.skip_if(self.key_pressed(v[x as int]))),
            Instruction::Sknp { x } => Ok(self.skip_if(!self.key_pressed(v[x as int]))),
            Instruction::LdVxDt { x } => Ok(self.with_v(v.update(x as int, self.dt))),
            Instruction::LdVxK { x } => Ok(MachineState { waiting: Some(x), ..self }),
            Instruction::LdDtVx { x } => Ok(MachineState { dt: v[x as int], ..self }),
            Instruction::LdStVx { x } => Ok(MachineState { st: v[x as int], ..self }),
            Instruction::AddIVx { x } => Ok(self.with_i(add_u16(self.i as int, v[x as int] as int))),
            Instruction::LdFVx { x } => Ok(
                self.with_i((v[x as int] * CHIP8_DEFAULT_SPRITE_HEIGHT) as u16),
            ),
            Instruction::LdBVx { x } => if self.i + 3 > 4096 {
                Err(Chip8Error::MemoryOutOfBounds { address })
            } else {
                Ok(self.ld_b_vx(x))
            },
            Instruction::LdIVx { x } => if self.i + x + 1 > 4096 {
                Err(Chip8Error::MemoryOutOfBounds { address })
            } else {
                Ok(self.ld_i_vx(x))
            },
            Instruction::LdVxI { x } => if self.i + x + 1 > 4096 {
                Err(Chip8Error::MemoryOutOfBounds { address })
            } else {
                Ok(self.ld_vx_i(x))
            },
        }
    }

    /// What executing the word `opcode`, fetched at `address`, does.
    pub open spec fn exec(self, opcode: u16, address: u16, rnd: u8) -> Result<MachineState, Chip8Error> {
        match decode_spec(opcode) {
            Some(ins) => self.execute(ins, address, rnd),
            None => Err(Chip8Error::IllegalOpcode { opcode, address }),
        }
    }

    /// One fetch-decode-execute step. Nothing happens while a key wait is
    /// pending; a failing step leaves the state as it was.
    pub open spec fn step(self, rnd: u8) -> Result<MachineState, Chip8Error> {
        if self.waiting is Some {
            Ok(self)
        } else if self.pc + 2 > 4096 {
            Err(Chip8Error::MemoryOutOfBounds { address: self.pc })
        } else {
            self.with_pc((self.pc + 2) as u16).exec(
                fetch_spec(self.memory, self.pc as int),
                self.pc,
                rnd,
            )
        }
    }

    /// A host key went down: the key is recorded and, if a key wait is
    /// pending and the key is on the keypad, its index goes to the waiting
    /// register and the wait ends.
    pub open spec fn key_down(self, key: i32) -> MachineState {
        match key_index_of(key) {
            Some(k) => match self.waiting {
                Some(x) => MachineState {
                    keys: self.keys.update(k as int, true),
                    v: self.v.update(x as int, k as u8),
                    waiting: None,
                    ..self
                },
                None => MachineState { keys: self.keys.update(k as int, true), ..self },
            },
            None => self,
        }
    }

    /// A host key went up.
    pub open spec fn key_up(self, key: i32) -> MachineState {
        match key_index_of(key) {
            Some(k) => MachineState { keys: self.keys.update(k as int, false), ..self },
            None => self,
        }
    }
}

} // verus!
