use vstd::prelude::*;

use crate::config::CHIP8_DATA_REGISTER_COUNT;

verus! {

/// The register bank: V0..VF, the index register, the two timers, the
/// program counter and the stack pointer.
#[derive(Debug, Clone, Copy)]
pub struct Registers {
    pub v: [u8; CHIP8_DATA_REGISTER_COUNT],
    pub i: u16,
    pub dt: u8,
    pub st: u8,
    pub pc: u16,
    pub sp: u8,
}

impl Registers {
    /// Every register at zero.
    pub fn new() -> (r: Self)
        ensures
            forall|k: int| 0 <= k < 16 ==> #[trigger] r.v@[k] == 0,
            r.i == 0,
            r.dt == 0,
            r.st == 0,
            r.pc == 0,
            r.sp == 0,
    {
        Self { v: [0u8; CHIP8_DATA_REGISTER_COUNT], i: 0, dt: 0, st: 0, pc: 0, sp: 0 }
    }
}

} // verus!
