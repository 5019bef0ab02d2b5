use vstd::prelude::*;

use crate::config::{CHIP8_EXEC_PERIOD_NS, CHIP8_TIMER_PERIOD_NS};
use crate::state::MachineState;

verus! {

/// Wall-clock time, in nanoseconds, gathered since the delay timer, the
/// sound timer and the instruction stream last advanced.
#[derive(Debug, Clone, Copy, PartialEq, Eq, Structural)]
pub struct Cadence {
    pub dt_elapsed_ns: u64,
    pub st_elapsed_ns: u64,
    pub exec_elapsed_ns: u64,
}

/// `a + b`, held at the largest `u64`.
pub open spec fn saturating_add_u64(a: u64, b: u64) -> u64 {
    if a + b > u64::MAX {
        u64::MAX
    } else {
        (a + b) as u64
    }
}

/// Whether the delay timer ticks with `elapsed` gathered.
pub open spec fn delay_ticks(s: MachineState, elapsed: u64) -> bool {
    elapsed >= CHIP8_TIMER_PERIOD_NS && s.dt > 0
}

/// Whether the sound timer ticks with `elapsed` gathered.
pub open spec fn sound_ticks(s: MachineState, elapsed: u64) -> bool {
    elapsed >= CHIP8_TIMER_PERIOD_NS && s.st > 0
}

/// The state after the sound timer is offered `elapsed`.
pub open spec fn after_sound(s: MachineState, elapsed: u64) -> MachineState {
    if sound_ticks(s, elapsed) {
        MachineState { st: (s.st - 1) as u8, audio_playing: true, ..s }
    } else if s.st == 0 {
        MachineState { audio_playing: false, ..s }
    } else {
        s
    }
}

/// The state after the delay timer is offered `elapsed`.
pub open spec fn after_delay(s: MachineState, elapsed: u64) -> MachineState {
    if delay_ticks(s, elapsed) {
        MachineState { dt: (s.dt - 1) as u8, ..s }
    } else {
        s
    }
}

impl Cadence {
    /// No time gathered yet.
    pub fn new() -> (r: Self)
        ensures
            r.dt_elapsed_ns == 0,
            r.st_elapsed_ns == 0,
            r.exec_elapsed_ns == 0,
    {
        Cadence { dt_elapsed_ns: 0, st_elapsed_ns: 0, exec_elapsed_ns: 0 }
    }

    /// Whether an instruction is due.
    pub open spec fn step_due(self) -> bool {
        self.exec_elapsed_ns >= CHIP8_EXEC_PERIOD_NS
    }

    /// The machine state after the timers are offered `elapsed` more
    /// nanoseconds: the sound timer first, then the delay timer.
    pub open spec fn timers_after(self, s: MachineState, elapsed: u64) -> MachineState {
        let st_acc = saturating_add_u64(self.st_elapsed_ns, elapsed);
        let dt_acc = saturating_add_u64(self.dt_elapsed_ns, elapsed);
        after_delay(after_sound(s, st_acc), dt_acc)
    }

    /// The counts after `elapsed` more nanoseconds: a timer that ticked
    /// starts again from zero.
    pub open spec fn counts_after(self, s: MachineState, elapsed: u64) -> Cadence {
        let st_acc = saturating_add_u64(self.st_elapsed_ns, elapsed);
        let dt_acc = saturating_add_u64(self.dt_elapsed_ns, elapsed);
        Cadence {
            st_elapsed_ns: if sound_ticks(s, st_acc) {
                0
            } else {
                st_acc
            },
            dt_elapsed_ns: if delay_ticks(after_sound(s, st_acc), dt_acc) {
                0
            } else {
                dt_acc
            },
            exec_elapsed_ns: saturating_add_u64(self.exec_elapsed_ns, elapsed),
        }
    }
}

} // verus!
