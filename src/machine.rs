use rand::Rng;
use vstd::prelude::*;

use crate::cadence::Cadence;

use crate::character::{character_set_spec, default_character_set};
use crate::config::{
    CHIP8_CHARACTER_SET_SIZE, CHIP8_DEFAULT_SPRITE_HEIGHT, CHIP8_MEMORY_SIZE,
    CHIP8_EXEC_PERIOD_NS, CHIP8_PROGRAM_LOAD_ADDRESS, CHIP8_STACK_DEPTH, CHIP8_TIMER_PERIOD_NS,
};
use crate::error::Chip8Error;
use crate::instruction::{decode, Instruction};
use crate::keyboard::Keyboard;
use crate::registers::Registers;
use crate::screen::{draw_rows, Screen};
use crate::state::{add_u16, add_u8, fetch_spec, MachineState};

verus! {

/// Relies on rand::thread_rng and rand::Rng::gen_range: a byte drawn from the
/// thread-local generator. Nothing is known of which byte.
#[verifier::external_body]
fn random_byte() -> (r: u8) {
    rand::thread_rng().gen_range(0..=255u8)
}

/// The memory of a fresh machine: the font at the bottom, zeros above it.
pub open spec fn initial_memory() -> Seq<u8> {
    Seq::new(4096, |k: int| if k < 80 { character_set_spec()[k] } else { 0u8 })
}

/// The memory after a program is copied to the load address.
pub open spec fn loaded_memory(memory: Seq<u8>, program: Seq<u8>) -> Seq<u8> {
    Seq::new(
        memory.len(),
        |k: int|
            if 0x200 <= k < 0x200 + program.len() {
                program[k - 0x200]
            } else {
                memory[k]
            },
    )
}

/// A CHIP-8 machine: memory, registers, stack, keypad and screen.
pub struct Chip8 {
    pub memory: [u8; CHIP8_MEMORY_SIZE],
    pub registers: Registers,
    stack: [u16; CHIP8_STACK_DEPTH],
    keyboard: Keyboard,
    screen: Screen,
    audio_playing: bool,
    waiting_key: Option<usize>,
}

impl View for Chip8 {
    type V = MachineState;

    closed spec fn view(&self) -> MachineState {
        MachineState {
            memory: self.memory@,
            v: self.registers.v@,
            i: self.registers.i,
            pc: self.registers.pc,
            sp: self.registers.sp,
            dt: self.registers.dt,
            st: self.registers.st,
            stack: self.stack@,
            pixels: self.screen@,
            keys: self.keyboard@,
            waiting: self.waiting_key,
            audio_playing: self.audio_playing,
        }
    }
}

impl Chip8 {
    pub closed spec fn wf(&self) -> bool {
        &&& self.screen.wf()
        &&& self.keyboard.wf()
        &&& self.registers.sp <= 16
        &&& self.waiting_key matches Some(x) ==> x < 16
    }

    /// A well-formed machine has a well-formed state.
    pub proof fn lemma_wf(&self)
        requires
            self.wf(),
        ensures
            self@.wf(),
    {
        self.screen.lemma_colors();
        self.keyboard.lemma_len();
    }

    /// A machine with the font in low memory, every other byte and register
    /// at zero, an empty stack, a blank screen and every key up. The program
    /// counter starts at the load address.
    pub fn new() -> (r: Self)
        ensures
            r.wf(),
            r@.memory == initial_memory(),
            r@.v == Seq::new(16, |k: int| 0u8),
            r@.i == 0,
            r@.pc == 0x200,
            r@.sp == 0,
            r@.dt == 0,
            r@.st == 0,
            r@.stack == Seq::new(16, |k: int| 0u16),
            r@.pixels == Seq::new(2048, |k: int| false),
            r@.keys == Seq::new(16, |k: int| false),
            r@.waiting is None,
            !r@.audio_playing,
    {
        let mut memory = [0u8; CHIP8_MEMORY_SIZE];
        let font = default_character_set();
        let mut k: usize = 0;
        while k < CHIP8_CHARACTER_SET_SIZE
            invariant
                k <= 80,
                font@ == character_set_spec(),
                forall|j: int| 0 <= j < k ==> #[trigger] memory@[j] == character_set_spec()[j],
                forall|j: int| k <= j < 4096 ==> #[trigger] memory@[j] == 0,
            decreases 80 - k,
        {
            memory[k] = font[k];
            k = k + 1;
        }
        let mut registers = Registers::new();
        registers.pc = CHIP8_PROGRAM_LOAD_ADDRESS as u16;
        let r = Self {
            memory,
            registers,
            stack: [0u16; CHIP8_STACK_DEPTH],
            keyboard: Keyboard::new(),
            screen: Screen::new(),
            audio_playing: false,
            waiting_key: None,
        };
        assert(r@.memory =~= initial_memory());
        assert(r@.v =~= Seq::new(16, |k: int| 0u8));
        assert(r@.stack =~= Seq::new(16, |k: int| 0u16));
        r
    }

    /// Copies a program to the load address. A program that does not leave
    /// at least one byte free above it is refused, and memory stays as it was.
    pub fn load(&mut self, buf: &[u8]) -> (r: Result<(), Chip8Error>)
        requires
            old(self).wf(),
        ensures
            final(self).wf(),
            buf@.len() + 0x200 < 4096 <==> r is Ok,
            r is Err ==> r == Err::<(), Chip8Error>(Chip8Error::ProgramTooLarge) && final(self)@ == old(
                self,
            )@,
            r is Ok ==> final(self)@ == (MachineState {
                memory: loaded_memory(old(self)@.memory, buf@),
                ..old(self)@
            }),
    {
        if buf.len() >= CHIP8_MEMORY_SIZE - CHIP8_PROGRAM_LOAD_ADDRESS {
            return Err(Chip8Error::ProgramTooLarge);
        }
        let ghost before = self.memory@;
        let start_addr = CHIP8_PROGRAM_LOAD_ADDRESS;
        let mut k: usize = 0;
        while k < buf.len()
            invariant
                k <= buf@.len(),
                buf@.len() + 0x200 < 4096,
                self.wf(),
                before == old(self)@.memory,
                self@ == (MachineState { memory: self.memory@, ..old(self)@ }),
                start_addr == 0x200,
                self.memory@.len() == 4096,
                forall|j: int|
                    0 <= j < 4096 ==> #[trigger] self.memory@[j] == if 0x200 <= j < 0x200 + k {
                        buf@[j - 0x200]
                    } else {
                        before[j]
                    },
            decreases buf@.len() - k,
        {
            self.memory[start_addr + k] = buf[k];
            k = k + 1;
        }
        assert(self.memory@ =~= loaded_memory(before, buf@));
        Ok(())
    }

    /// The screen, for presentation.
    pub fn screen(&self) -> (r: &Screen)
        requires
            self.wf(),
        ensures
            r.wf(),
            r@ == self@.pixels,
    {
        &self.screen
    }

    /// The keypad.
    pub fn keyboard(&self) -> (r: &Keyboard)
        requires
            self.wf(),
        ensures
            r.wf(),
            r@ == self@.keys,
    {
        &self.keyboard
    }

    /// The stack slots.
    pub fn stack(&self) -> (r: &[u16])
        ensures
            r@ == self@.stack,
    {
        self.stack.as_slice()
    }

    /// Whether the host is told to play the tone.
    pub fn audio_playing(&self) -> (r: bool)
        ensures
            r == self@.audio_playing,
    {
        self.audio_playing
    }

    /// The register awaiting a key press, if a key wait is pending.
    pub fn waiting_for_key(&self) -> (r: Option<usize>)
        ensures
            r == self@.waiting,
    {
        self.waiting_key
    }

    /// Records a host key press. A pending key wait takes the key's index if
    /// the key is on the keypad.
    pub fn key_down(&mut self, key: i32)
        requires
            old(self).wf(),
        ensures
            final(self).wf(),
            final(self)@ == old(self)@.key_down(key),
    {
        self.keyboard.key_down(key);
        if let Some(x) = self.waiting_key {
            if let Some(k) = self.keyboard.map_key(key) {
                self.registers.v[x] = k as u8;
                self.waiting_key = None;
            }
        }
    }

    /// Records a host key release.
    pub fn key_up(&mut self, key: i32)
        requires
            old(self).wf(),
        ensures
            final(self).wf(),
            final(self)@ == old(self)@.key_up(key),
    {
        self.keyboard.key_up(key);
    }

    /// Draws built-in glyph `glyph` (0..F) at (x, y), reading its five rows
    /// from the font area of memory.
    pub fn draw_character(&mut self, x: usize, y: usize, glyph: u8)
        requires
            old(self).wf(),
            glyph < 16,
        ensures
            final(self).wf(),
            final(self)@ == (MachineState {
                pixels: draw_rows(
                    old(self)@.pixels,
                    x as int,
                    y as int,
                    old(self)@.memory.subrange(glyph * 5, glyph * 5 + 5),
                    5,
                ),
                ..old(self)@
            }),
    {
        let start = glyph as usize * CHIP8_DEFAULT_SPRITE_HEIGHT as usize;
        assert(start <= 75) by (nonlinear_arith)
            requires
                start == glyph as usize * 5,
                glyph < 16,
        ;
        let end = start + CHIP8_DEFAULT_SPRITE_HEIGHT as usize;
        self.screen.draw_sprite(x, y, &self.memory[start..end]);
    }

    /// Decrements the delay timer when at least a timer period has elapsed
    /// and the timer is running. Returns whether it ticked, so that the
    /// caller restarts its count.
    pub fn update_delay_timer(&mut self, delta_ns: u64) -> (r: bool)
        ensures
            r == (delta_ns >= CHIP8_TIMER_PERIOD_NS && old(self)@.dt > 0),
            final(self)@ == if r {
                MachineState { dt: (old(self)@.dt - 1) as u8, ..old(self)@ }
            } else {
                old(self)@
            },
            final(self).wf() == old(self).wf(),
    {
        if delta_ns >= CHIP8_TIMER_PERIOD_NS && self.registers.dt > 0 {
            self.registers.dt = self.registers.dt - 1;
            return true;
        }
        false
    }

    /// Decrements the sound timer when at least a timer period has elapsed
    /// and the timer is running, and starts the tone if it was off. With the
    /// timer at zero, a playing tone stops. Returns whether it ticked.
    pub fn update_sound_timer(&mut self, delta_ns: u64) -> (r: bool)
        ensures
            r == (delta_ns >= CHIP8_TIMER_PERIOD_NS && old(self)@.st > 0),
            final(self)@ == if r {
                MachineState { st: (old(self)@.st - 1) as u8, audio_playing: true, ..old(self)@ }
            } else if old(self)@.st == 0 {
                MachineState { audio_playing: false, ..old(self)@ }
            } else {
                old(self)@
            },
            final(self).wf() == old(self).wf(),
    {
        if delta_ns >= CHIP8_TIMER_PERIOD_NS && self.registers.st > 0 {
            if !self.audio_playing {
                self.audio_playing = true;
            }
            self.registers.st = self.registers.st - 1;
            return true;
        }
        if self.audio_playing && self.registers.st == 0 {
            self.audio_playing = false;
        }
        false
    }

    /// Offers `elapsed_ns` more nanoseconds to the timers and to the
    /// instruction stream. Each timer ticks once its count reaches a timer
    /// period, and its count then restarts.
    pub fn update_timers(&mut self, cadence: &mut Cadence, elapsed_ns: u64)
        requires
            old(self).wf(),
        ensures
            final(self).wf(),
            final(self)@ == old(cadence).timers_after(old(self)@, elapsed_ns),
            *final(cadence) == old(cadence).counts_after(old(self)@, elapsed_ns),
    {
        cadence.st_elapsed_ns = cadence.st_elapsed_ns.saturating_add(elapsed_ns);
        cadence.dt_elapsed_ns = cadence.dt_elapsed_ns.saturating_add(elapsed_ns);
        cadence.exec_elapsed_ns = cadence.exec_elapsed_ns.saturating_add(elapsed_ns);
        if self.update_sound_timer(cadence.st_elapsed_ns) {
            cadence.st_elapsed_ns = 0;
        }
        if self.update_delay_timer(cadence.dt_elapsed_ns) {
            cadence.dt_elapsed_ns = 0;
        }
    }

    /// Executes one instruction if one is due, with a random byte for Cxkk.
    /// Returns whether one was due.
    pub fn run_cycle(&mut self, cadence: &mut Cadence) -> (r: Result<bool, Chip8Error>)
        requires
            old(self).wf(),
        ensures
            final(self).wf(),
            !old(cadence).step_due() ==> r == Ok::<bool, Chip8Error>(false) && final(self)@ == old(self)@
                && *final(cadence) == *old(cadence),
            old(cadence).step_due() ==> final(cadence).exec_elapsed_ns == old(cadence).exec_elapsed_ns
                - CHIP8_EXEC_PERIOD_NS && final(cadence).dt_elapsed_ns == old(cadence).dt_elapsed_ns
                && final(cadence).st_elapsed_ns == old(cadence).st_elapsed_ns && exists|b: u8|
                match #[trigger] old(self)@.step(b) {
                    Ok(s) => r == Ok::<bool, Chip8Error>(true) && final(self)@ == s,
                    Err(e) => r == Err::<bool, Chip8Error>(e) && final(self)@ == old(self)@,
                },
    {
        if cadence.exec_elapsed_ns < CHIP8_EXEC_PERIOD_NS {
            return Ok(false);
        }
        cadence.exec_elapsed_ns = cadence.exec_elapsed_ns - CHIP8_EXEC_PERIOD_NS;
        let rnd = random_byte();
        match self.step(rnd) {
            Ok(()) => Ok(true),
            Err(e) => Err(e),
        }
    }

    /// The instruction word stored big-endian at `addr`.
    pub fn get_u16(&self, addr: u16) -> (r: u16)
        requires
            addr + 1 < 4096,
        ensures
            r == fetch_spec(self@.memory, addr as int),
    {
        let hi = self.memory[addr as usize] as u16;
        let lo = self.memory[addr as usize + 1] as u16;
        hi * 256 + lo
    }

    /// One fetch-decode-execute step, with `rnd` as the byte that a Cxkk
    /// instruction draws.
    pub fn step(&mut self, rnd: u8) -> (r: Result<(), Chip8Error>)
        requires
            old(self).wf(),
        ensures
            final(self).wf(),
            match old(self)@.step(rnd) {
                Ok(s) => r is Ok && final(self)@ == s,
                Err(e) => r == Err::<(), Chip8Error>(e) && final(self)@ == old(self)@,
            },
    {
        if self.waiting_key.is_some() {
            return Ok(());
        }
        let pc = self.registers.pc;
        if pc > 4094 {
            return Err(Chip8Error::MemoryOutOfBounds { address: pc });
        }
        let opcode = self.get_u16(pc);
        self.registers.pc = pc + 2;
        let r = self.exec(opcode, pc, rnd);
        if r.is_err() {
            self.registers.pc = pc;
        }
        r
    }

    /// Executes the word `opcode`, fetched at `address`, with the program
    /// counter already past it. A failing instruction changes nothing.
    pub fn exec(&mut self, opcode: u16, address: u16, rnd: u8) -> (r: Result<(), Chip8Error>)
        requires
            old(self).wf(),
        ensures
            final(self).wf(),
            match old(self)@.exec(opcode, address, rnd) {
                Ok(s) => r is Ok && final(self)@ == s,
                Err(e) => r == Err::<(), Chip8Error>(e) && final(self)@ == old(self)@,
            },
    {
        match decode(opcode) {
            Some(ins) => self.execute(ins, address, rnd),
            None => Err(Chip8Error::IllegalOpcode { opcode, address }),
        }
    }

    /// Executes a decoded instruction; see `MachineState::execute`.
    pub fn execute(&mut self, ins: Instruction, address: u16, rnd: u8) -> (r: Result<(), Chip8Error>)
        requires
            old(self).wf(),
            ins.wf(),
        ensures
            final(self).wf(),
            match old(self)@.execute(ins, address, rnd) {
                Ok(s) => r is Ok && final(self)@ == s,
                Err(e) => r == Err::<(), Chip8Error>(e) && final(self)@ == old(self)@,
            },
    {
        proof {
            self.lemma_wf();
        }
        match ins {
            Instruction::Cls => {
                self.cls();
                Ok(())
            },
            Instruction::Ret => {
                if self.registers.sp == 0 {
                    return Err(Chip8Error::StackUnderflow { address });
                }
                self.ret();
                Ok(())
            },
            Instruction::Jp { nnn } => {
                self.jp(nnn);
                Ok(())
            },
            Instruction::Call { nnn } => {
                if self.registers.sp as usize >= CHIP8_STACK_DEPTH {
                    return Err(Chip8Error::StackOverflow { address });
                }
                self.call(nnn);
                Ok(())
            },
            Instruction::SeVxByte { x, kk } => {
                self.se_vx_byte(x, kk);
                Ok(())
            },
            Instruction::SneVxByte { x, kk } => {
                self.sne_vx_byte(x, kk);
                Ok(())
            },
            Instruction::SeVxVy { x, y } => {
                self.se_vx_vy(x, y);
                Ok(())
            },
            Instruction::LdVxByte { x, kk } => {
                self.ld_vx_byte(x, kk);
                Ok(())
            },
            Instruction::AddVxByte { x, kk } => {
                self.add_vx_byte(x, kk);
                Ok(())
            },
            Instruction::LdVxVy { x, y } => {
                self.ld_vx_vy(x, y);
                Ok(())
            },
            Instruction::OrVxVy { x, y } => {
                self.or_vx_vy(x, y);
                Ok(())
            },
            Instruction::AndVxVy { x, y } => {
                self.and_vx_vy(x, y);
                Ok(())
            },
            Instruction::XorVxVy { x, y } => {
                self.xor_vx_vy(x, y);
                Ok(())
            },
            Instruction::AddVxVy { x, y } => {
                self.add_vx_vy(x, y);
                Ok(())
            },
            Instruction::SubVxVy { x, y } => {
                self.sub_vx_vy(x, y);
                Ok(())
            },
            Instruction::ShrVx { x } => {
                self.shr_vx(x);
                Ok(())
            },
            Instruction::SubnVxVy { x, y } => {
                self.subn_vx_vy(x, y);
                Ok(())
            },
            Instruction::ShlVx { x } => {
                self.shl_vx(x);
                Ok(())
            },
            Instruction::SneVxVy { x, y } => {
                self.sne_vx_vy(x, y);
                Ok(())
            },
            Instruction::LdI { nnn } => {
                self.ld_i(nnn);
                Ok(())
            },
            Instruction::JpV0 { nnn } => {
                self.jp_v0(nnn);
                Ok(())
            },
            Instruction::Rnd { x, kk } => {
                self.rnd(x, kk, rnd);
                Ok(())
            },
            Instruction::Drw { x, y, n } => {
                if self.registers.i as usize + n > CHIP8_MEMORY_SIZE {
                    return Err(Chip8Error::MemoryOutOfBounds { address });
                }
                self.drw(x, y, n);
                Ok(())
            },
            Instruction::Skp { x } => {
                self.skp(x);
                Ok(())
            },
            Instruction::Sknp { x } => {
                self.sknp(x);
                Ok(())
            },
            Instruction::LdVxDt { x } => {
                self.ld_vx_dt(x);
                Ok(())
            },
            Instruction::LdVxK { x } => {
                self.ld_vx_k(x);
                Ok(())
            },
            Instruction::LdDtVx { x } => {
                self.ld_dt_vx(x);
                Ok(())
            },
            Instruction::LdStVx { x } => {
                self.ld_st_vx(x);
                Ok(())
            },
            Instruction::AddIVx { x } => {
                self.add_i_vx(x);
                Ok(())
            },
            Instruction::LdFVx { x } => {
                self.ld_f_vx(x);
                Ok(())
            },
            Instruction::LdBVx { x } => {
                if self.registers.i as usize + 3 > CHIP8_MEMORY_SIZE {
                    return Err(Chip8Error::MemoryOutOfBounds { address });
                }
                self.ld_b_vx(x);
                Ok(())
            },
            Instruction::LdIVx { x } => {
                if self.registers.i as usize + x + 1 > CHIP8_MEMORY_SIZE {
                    return Err(Chip8Error::MemoryOutOfBounds { address });
                }
                self.ld_i_vx(x);
                Ok(())
            },
            Instruction::LdVxI { x } => {
                if self.registers.i as usize + x + 1 > CHIP8_MEMORY_SIZE {
                    return Err(Chip8Error::MemoryOutOfBounds { address });
                }
                self.ld_vx_i(x);
                Ok(())
            },
        }
    }

    /// Advances the program counter past the next instruction.
    fn skip_next(&mut self)
        requires
            old(self).wf(),
        ensures
            final(self).wf(),
            final(self)@ == old(self)@.skip_if(true),
    {
        self.registers.pc = self.registers.pc.wrapping_add(2);
    }

    /// Pushes a return address.
    fn push(&mut self, val: u16)
        requires
            old(self).wf(),
            old(self)@.sp < 16,
        ensures
            final(self).wf(),
            final(self)@ == (MachineState {
                stack: old(self)@.stack.update(old(self)@.sp as int, val),
                sp: (old(self)@.sp + 1) as u8,
                ..old(self)@
            }),
    {
        self.stack[self.registers.sp as usize] = val;
        self.registers.sp = self.registers.sp + 1;
    }

    /// Pops the most recent return address.
    fn pop(&mut self) -> (r: u16)
        requires
            old(self).wf(),
            old(self)@.sp > 0,
        ensures
            final(self).wf(),
            r == old(self)@.stack[old(self)@.sp - 1],
            final(self)@ == (MachineState { sp: (old(self)@.sp - 1) as u8, ..old(self)@ }),
    {
        self.registers.sp = self.registers.sp - 1;
        self.stack[self.registers.sp as usize]
    }

    /// 00E0 - CLS: clears the screen.
    fn cls(&mut self)
        requires
            old(self).wf(),
        ensures
            final(self).wf(),
            final(self)@ == old(self)@.cls(),
    {
        self.screen.clear();
    }

    /// 00EE - RET: returns from a subroutine.
    fn ret(&mut self)
        requires
            old(self).wf(),
            old(self)@.sp > 0,
        ensures
            final(self).wf(),
            final(self)@ == old(self)@.ret(),
    {
        self.registers.pc = self.pop();
    }

    /// 1nnn - JP addr: jumps to nnn.
    fn jp(&mut self, nnn: u16)
        requires
            old(self).wf(),
        ensures
            final(self).wf(),
            final(self)@ == old(self)@.with_pc(nnn),
    {
        self.registers.pc = nnn;
    }

    /// 2nnn - CALL addr: calls the subroutine at nnn.
    fn call(&mut self, nnn: u16)
        requires
            old(self).wf(),
            old(self)@.sp < 16,
        ensures
            final(self).wf(),
            final(self)@ == old(self)@.call(nnn),
    {
        let pc = self.registers.pc;
        self.push(pc);
        self.registers.pc = nnn;
    }

    /// 3xkk - SE Vx, byte: skips the next instruction if Vx == kk.
    fn se_vx_byte(&mut self, x: usize, kk: u8)
        requires
            old(self).wf(),
            x < 16,
        ensures
            final(self).wf(),
            final(self)@ == old(self)@.skip_if(old(self)@.v[x as int] == kk),
    {
        if self.registers.v[x] == kk {
            self.skip_next();
        }
    }

    /// 4xkk - SNE Vx, byte: skips the next instruction if Vx != kk.
    fn sne_vx_byte(&mut self, x: usize, kk: u8)
        requires
            old(self).wf(),
            x < 16,
        ensures
            final(self).wf(),
            final(self)@ == old(self)@.skip_if(old(self)@.v[x as int] != kk),
    {
        if self.registers.v[x] != kk {
            self.skip_next();
        }
    }

    /// 5xy0 - SE Vx, Vy: skips the next instruction if Vx == Vy.
    fn se_vx_vy(&mut self, x: usize, y: usize)
        requires
            old(self).wf(),
            x < 16,
            y < 16,
        ensures
            final(self).wf(),
            final(self)@ == old(self)@.skip_if(old(self)@.v[x as int] == old(self)@.v[y as int]),
    {
        if self.registers.v[x] == self.registers.v[y] {
            self.skip_next();
        }
    }

    /// 6xkk - LD Vx, byte: Vx = kk.
    fn ld_vx_byte(&mut self, x: usize, kk: u8)
        requires
            old(self).wf(),
            x < 16,
        ensures
            final(self).wf(),
            final(self)@ == old(self)@.with_v(old(self)@.v.update(x as int, kk)),
    {
        self.registers.v[x] = kk;
    }

    /// 7xkk - ADD Vx, byte: Vx = Vx + kk, wrapping.
    fn add_vx_byte(&mut self, x: usize, kk: u8)
        requires
            old(self).wf(),
            x < 16,
        ensures
            final(self).wf(),
            final(self)@ == old(self)@.with_v(
                old(self)@.v.update(x as int, add_u8(old(self)@.v[x as int] as int, kk as int)),
            ),
    {
        self.registers.v[x] = self.registers.v[x].wrapping_add(kk);
    }

    /// 8xy0 - LD Vx, Vy: Vx = Vy.
    fn ld_vx_vy(&mut self, x: usize, y: usize)
        requires
            old(self).wf(),
            x < 16,
            y < 16,
        ensures
            final(self).wf(),
            final(self)@ == old(self)@.with_v(old(self)@.v.update(x as int, old(self)@.v[y as int])),
    {
        self.registers.v[x] = self.registers.v[y];
    }

    /// 8xy1 - OR Vx, Vy.
    fn or_vx_vy(&mut self, x: usize, y: usize)
        requires
            old(self).wf(),
            x < 16,
            y < 16,
        ensures
            final(self).wf(),
            final(self)@ == old(self)@.with_v(
                old(self)@.v.update(x as int, old(self)@.v[x as int] | old(self)@.v[y as int]),
            ),
    {
        self.registers.v[x] = self.registers.v[x] | self.registers.v[y];
    }

    /// 8xy2 - AND Vx, Vy.
    fn and_vx_vy(&mut self, x: usize, y: usize)
        requires
            old(self).wf(),
            x < 16,
            y < 16,
        ensures
            final(self).wf(),
            final(self)@ == old(self)@.with_v(
                old(self)@.v.update(x as int, old(self)@.v[x as int] & old(self)@.v[y as int]),
            ),
    {
        self.registers.v[x] = self.registers.v[x] & self.registers.v[y];
    }

    /// 8xy3 - XOR Vx, Vy.
    fn xor_vx_vy(&mut self, x: usize, y: usize)
        requires
            old(self).wf(),
            x < 16,
            y < 16,
        ensures
            final(self).wf(),
            final(self)@ == old(self)@.with_v(
                old(self)@.v.update(x as int, old(self)@.v[x as int] ^ old(self)@.v[y as int]),
            ),
    {
        self.registers.v[x] = self.registers.v[x] ^ self.registers.v[y];
    }

    /// 8xy4 - ADD Vx, Vy: VF is the carry.
    fn add_vx_vy(&mut self, x: usize, y: usize)
        requires
            old(self).wf(),
            x < 16,
            y < 16,
        ensures
            final(self).wf(),
            final(self)@ == old(self)@.add_vx_vy(x, y),
    {
        let result = self.registers.v[x] as u16 + self.registers.v[y] as u16;
        self.registers.v[x] = (result % 256) as u8;
        self.registers.v[0xF] = if result > 0xFF {
            1
        } else {
            0
        };
    }

    /// 8xy5 - SUB Vx, Vy: VF is set when Vx > Vy.
    fn sub_vx_vy(&mut self, x: usize, y: usize)
        requires
            old(self).wf(),
            x < 16,
            y < 16,
        ensures
            final(self).wf(),
            final(self)@ == old(self)@.sub_vx_vy(x, y),
    {
        self.registers.v[0xF] = if self.registers.v[x] > self.registers.v[y] {
            1
        } else {
            0
        };
        self.registers.v[x] = self.registers.v[x].wrapping_sub(self.registers.v[y]);
    }

    /// 8xy6 - SHR Vx: VF is the bit shifted out.
    fn shr_vx(&mut self, x: usize)
        requires
            old(self).wf(),
            x < 16,
        ensures
            final(self).wf(),
            final(self)@ == old(self)@.shr_vx(x),
    {
        self.registers.v[0xF] = self.registers.v[x] & 0x01;
        self.registers.v[x] = self.registers.v[x] >> 1;
    }

    /// 8xy7 - SUBN Vx, Vy: Vx = Vy - Vx; VF is set when Vy > Vx.
    fn subn_vx_vy(&mut self, x: usize, y: usize)
        requires
            old(self).wf(),
            x < 16,
            y < 16,
        ensures
            final(self).wf(),
            final(self)@ == old(self)@.subn_vx_vy(x, y),
    {
        self.registers.v[0xF] = if self.registers.v[y] > self.registers.v[x] {
            1
        } else {
            0
        };
        self.registers.v[x] = self.registers.v[y].wrapping_sub(self.registers.v[x]);
    }

    /// 8xyE - SHL Vx: VF is the high bit, masked in place.
    fn shl_vx(&mut self, x: usize)
        requires
            old(self).wf(),
            x < 16,
        ensures
            final(self).wf(),
            final(self)@ == old(self)@.shl_vx(x),
    {
        self.registers.v[0xF] = self.registers.v[x] & 0x80;
        self.registers.v[x] = self.registers.v[x] << 1;
    }

    /// 9xy0 - SNE Vx, Vy: skips the next instruction if Vx != Vy.
    fn sne_vx_vy(&mut self, x: usize, y: usize)
        requires
            old(self).wf(),
            x < 16,
            y < 16,
        ensures
            final(self).wf(),
            final(self)@ == old(self)@.skip_if(old(self)@.v[x as int] != old(self)@.v[y as int]),
    {
        if self.registers.v[x] != self.registers.v[y] {
            self.skip_next();
        }
    }

    /// Annn - LD I, addr: I = nnn.
    fn ld_i(&mut self, nnn: u16)
        requires
            old(self).wf(),
        ensures
            final(self).wf(),
            final(self)@ == old(self)@.with_i(nnn),
    {
        self.registers.i = nnn;
    }

    /// Bnnn - JP V0, addr: jumps to nnn + V0.
    fn jp_v0(&mut self, nnn: u16)
        requires
            old(self).wf(),
        ensures
            final(self).wf(),
            final(self)@ == old(self)@.with_pc(add_u16(nnn as int, old(self)@.v[0] as int)),
    {
        self.registers.pc = nnn.wrapping_add(self.registers.v[0x0] as u16);
    }

    /// Cxkk - RND Vx, byte: Vx = rnd & kk.
    fn rnd(&mut self, x: usize, kk: u8, rnd: u8)
        requires
            old(self).wf(),
            x < 16,
        ensures
            final(self).wf(),
            final(self)@ == old(self)@.with_v(old(self)@.v.update(x as int, rnd & kk)),
    {
        self.registers.v[x] = rnd & kk;
    }

    /// Dxyn - DRW Vx, Vy, n: draws the n-row sprite at I; VF is the collision.
    fn drw(&mut self, x: usize, y: usize, n: usize)
        requires
            old(self).wf(),
            x < 16,
            y < 16,
            old(self)@.i + n <= 4096,
        ensures
            final(self).wf(),
            final(self)@ == old(self)@.drw(x, y, n),
    {
        let sprite_addr = self.registers.i as usize;
        let collision = self.screen.draw_sprite(
            self.registers.v[x] as usize,
            self.registers.v[y] as usize,
            &self.memory[sprite_addr..sprite_addr + n],
        );
        self.registers.v[0xF] = if collision {
            1
        } else {
            0
        };
    }

    /// Ex9E - SKP Vx: skips the next instruction if key Vx is down.
    fn skp(&mut self, x: usize)
        requires
            old(self).wf(),
            x < 16,
        ensures
            final(self).wf(),
            final(self)@ == old(self)@.skip_if(old(self)@.key_pressed(old(self)@.v[x as int])),
    {
        if self.keyboard.is_pressed(self.registers.v[x] as usize) {
            self.skip_next();
        }
    }

    /// ExA1 - SKNP Vx: skips the next instruction if key Vx is up.
    fn sknp(&mut self, x: usize)
        requires
            old(self).wf(),
            x < 16,
        ensures
            final(self).wf(),
            final(self)@ == old(self)@.skip_if(!old(self)@.key_pressed(old(self)@.v[x as int])),
    {
        if !self.keyboard.is_pressed(self.registers.v[x] as usize) {
            self.skip_next();
        }
    }

    /// Fx07 - LD Vx, DT.
    fn ld_vx_dt(&mut self, x: usize)
        requires
            old(self).wf(),
            x < 16,
        ensures
            final(self).wf(),
            final(self)@ == old(self)@.with_v(old(self)@.v.update(x as int, old(self)@.dt)),
    {
        self.registers.v[x] = self.registers.dt;
    }

    /// Fx0A - LD Vx, K: starts a key wait; execution pauses until a keypad
    /// key goes down.
    fn ld_vx_k(&mut self, x: usize)
        requires
            old(self).wf(),
            x < 16,
        ensures
            final(self).wf(),
            final(self)@ == (MachineState { waiting: Some(x), ..old(self)@ }),
    {
        self.waiting_key = Some(x);
    }

    /// Fx15 - LD DT, Vx.
    fn ld_dt_vx(&mut self, x: usize)
        requires
            old(self).wf(),
            x < 16,
        ensures
            final(self).wf(),
            final(self)@ == (MachineState { dt: old(self)@.v[x as int], ..old(self)@ }),
    {
        self.registers.dt = self.registers.v[x];
    }

    /// Fx18 - LD ST, Vx.
    fn ld_st_vx(&mut self, x: usize)
        requires
            old(self).wf(),
            x < 16,
        ensures
            final(self).wf(),
            final(self)@ == (MachineState { st: old(self)@.v[x as int], ..old(self)@ }),
    {
        self.registers.st = self.registers.v[x];
    }

    /// Fx1E - ADD I, Vx, wrapping.
    fn add_i_vx(&mut self, x: usize)
        requires
            old(self).wf(),
            x < 16,
        ensures
            final(self).wf(),
            final(self)@ == old(self)@.with_i(add_u16(old(self)@.i as int, old(self)@.v[x as int] as int)),
    {
        self.registers.i = self.registers.i.wrapping_add(self.registers.v[x] as u16);
    }

    /// Fx29 - LD F, Vx: I = address of the glyph for Vx.
    fn ld_f_vx(&mut self, x: usize)
        requires
            old(self).wf(),
            x < 16,
        ensures
            final(self).wf(),
            final(self)@ == old(self)@.with_i((old(self)@.v[x as int] * CHIP8_DEFAULT_SPRITE_HEIGHT) as u16),
    {
        self.registers.i = self.registers.v[x] as u16 * CHIP8_DEFAULT_SPRITE_HEIGHT as u16;
    }

    /// Fx33 - LD B, Vx: hundreds, tens and units of Vx at I, I+1, I+2.
    fn ld_b_vx(&mut self, x: usize)
        requires
            old(self).wf(),
            x < 16,
            old(self)@.i + 3 <= 4096,
        ensures
            final(self).wf(),
            final(self)@ == old(self)@.ld_b_vx(x),
    {
        let value = self.registers.v[x];
        let units = value % 10;
        let tens = value / 10 % 10;
        let hundreds = value / 100;
        let i = self.registers.i as usize;
        self.memory[i] = hundreds;
        self.memory[i + 1] = tens;
        self.memory[i + 2] = units;
    }

    /// Fx55 - LD [I], Vx: stores V0 through Vx, inclusive, from I on.
    fn ld_i_vx(&mut self, x: usize)
        requires
            old(self).wf(),
            x < 16,
            old(self)@.i + x + 1 <= 4096,
        ensures
            final(self).wf(),
            final(self)@ == old(self)@.ld_i_vx(x),
    {
        let ghost before = self.memory@;
        let start_loc = self.registers.i as usize;
        let mut k: usize = 0;
        while k <= x
            invariant
                k <= x + 1,
                x < 16,
                start_loc == self.registers.i,
                start_loc + x + 1 <= 4096,
                self.wf(),
                before == old(self)@.memory,
                self@ == (MachineState { memory: self.memory@, ..old(self)@ }),
                self.memory@.len() == 4096,
                forall|j: int|
                    0 <= j < 4096 ==> #[trigger] self.memory@[j] == if start_loc <= j < start_loc + k {
                        self.registers.v@[j - start_loc]
                    } else {
                        before[j]
                    },
            decreases x + 1 - k,
        {
            self.memory[start_loc + k] = self.registers.v[k];
            k = k + 1;
        }
        assert(self@ =~= old(self)@.ld_i_vx(x));
    }

    /// Fx65 - LD Vx, [I]: loads V0 through Vx, inclusive, from I on.
    fn ld_vx_i(&mut self, x: usize)
        requires
            old(self).wf(),
            x < 16,
            old(self)@.i + x + 1 <= 4096,
        ensures
            final(self).wf(),
            final(self)@ == old(self)@.ld_vx_i(x),
    {
        let ghost before = self.registers.v@;
        let start_loc = self.registers.i as usize;
        let mut k: usize = 0;
        while k <= x
            invariant
                k <= x + 1,
                x < 16,
                start_loc == self.registers.i,
                start_loc + x + 1 <= 4096,
                self.wf(),
                before == old(self)@.v,
                self@ == old(self)@.with_v(self.registers.v@),
                self.registers.v@.len() == 16,
                forall|j: int|
                    0 <= j < 16 ==> #[trigger] self.registers.v@[j] == if j < k {
                        self.memory@[start_loc + j]
                    } else {
                        before[j]
                    },
            decreases x + 1 - k,
        {
            self.registers.v[k] = self.memory[start_loc + k];
            k = k + 1;
        }
        assert(self@ =~= old(self)@.ld_vx_i(x));
    }
}

} // verus!
