use vstd::prelude::*;

use crate::instruction::{decode_spec, Instruction};
use crate::machine::loaded_memory;
use crate::screen::{
    apply_row, draw_collides, draw_rows, pixel_index, row_collides, row_covers, sprite_bit,
};
use crate::state::{fetch_spec, flag, MachineState};

verus! {

/// After a program of at least two bytes is loaded into a machine whose
/// program counter is at the load address, the next step executes the word
/// formed big-endian by the program's first two bytes.
pub proof fn lemma_load_then_fetch(s: MachineState, program: Seq<u8>, rnd: u8)
    requires
        s.wf(),
        program.len() >= 2,
        program.len() + 0x200 < 4096,
        s.pc == 0x200,
        s.waiting is None,
    ensures
        ({
            let loaded = MachineState { memory: loaded_memory(s.memory, program), ..s };
            &&& fetch_spec(loaded.memory, 0x200) == (program[0] as int * 256 + program[1] as int) as u16
            &&& loaded.step(rnd) == loaded.with_pc(0x202).exec(
                (program[0] as int * 256 + program[1] as int) as u16,
                0x200,
                rnd,
            )
        }),
{
}

/// 7xkk adds modulo 256, and 8xy4 leaves the low byte of the sum in Vx
/// (unless x is F) and sets VF to 1 exactly when the sum exceeds 255.
pub proof fn lemma_add_wraps(s: MachineState, x: usize, y: usize, kk: u8, address: u16, rnd: u8)
    requires
        s.wf(),
        x < 16,
        y < 16,
    ensures
        s.execute(Instruction::AddVxByte { x, kk }, address, rnd) matches Ok(t) && t.v[x as int] == (
        s.v[x as int] + kk) % 256,
        s.execute(Instruction::AddVxVy { x, y }, address, rnd) matches Ok(t) && t.v[15] == flag(
            s.v[x as int] + s.v[y as int] > 255,
        ) && (x != 15 ==> t.v[x as int] == (s.v[x as int] + s.v[y as int]) % 256),
{
}

/// 8xy6 sets VF to the low bit of Vx as it was, and 8xyE to its high bit
/// masked in place (0 or 0x80); Vx then holds the shifted value. (With x = F
/// the shifted value overwrites the flag.)
pub proof fn lemma_shift_flags(s: MachineState, x: usize, address: u16, rnd: u8)
    requires
        s.wf(),
        x < 15,
    ensures
        s.execute(Instruction::ShrVx { x }, address, rnd) matches Ok(t) && t.v[15] == s.v[x as int]
            & 1u8 && t.v[x as int] == s.v[x as int] >> 1u8,
        s.execute(Instruction::ShlVx { x }, address, rnd) matches Ok(t) && t.v[15] == s.v[x as int]
            & 0x80u8 && t.v[x as int] == s.v[x as int] << 1u8,
{
}

/// Each set bit `b` of a one-row sprite drawn at (x, y) toggles pixel
/// ((x + b) mod 64, y mod 32): a sprite at the right edge wraps to the left.
pub proof fn lemma_sprite_wraps(pix: Seq<bool>, x: int, y: int, byte: u8, b: int)
    requires
        pix.len() == 2048,
        x >= 0,
        y >= 0,
        sprite_bit(byte, b),
    ensures
        draw_rows(pix, x, y, seq![byte], 1)[pixel_index((x + b) % 64, y % 32)] != pix[pixel_index(
            (x + b) % 64,
            y % 32,
        )],
{
    let k = pixel_index((x + b) % 64, y % 32);
    assert(row_covers(x, y, 0, byte, k));
    assert(draw_rows(pix, x, y, seq![byte], 0) == pix);
    assert(draw_rows(pix, x, y, seq![byte], 1) == apply_row(pix, x, y, 0, byte));
}

/// Fx33 stores the decimal digits of Vx, so that hundreds, tens and units
/// read back give Vx.
pub proof fn lemma_bcd_round_trip(s: MachineState, x: usize, address: u16, rnd: u8)
    requires
        s.wf(),
        x < 16,
        s.i + 3 <= 4096,
    ensures
        s.execute(Instruction::LdBVx { x }, address, rnd) matches Ok(t) && 100 * t.memory[s.i as int]
            + 10 * t.memory[s.i + 1] + t.memory[s.i + 2] == s.v[x as int],
{
    let v = s.v[x as int];
    assert(100 * (v / 100) + 10 * (v / 10 % 10) + v % 10 == v) by (nonlinear_arith)
        requires
            v < 256,
    ;
}

/// The word 2nnn decodes to a call of nnn, and 00EE to a return.
pub proof fn lemma_decode_call_ret(nnn: u16)
    requires
        nnn < 0x1000,
    ensures
        decode_spec((0x2000 + nnn) as u16) == Some(Instruction::Call { nnn }),
        decode_spec(0x00EE) == Some(Instruction::Ret),
{
    let op = (0x2000 + nnn) as u16;
    assert(op & 0xF000u16 == 0x2000u16 && op & 0x0FFFu16 == nnn) by (bit_vector)
        requires
            op == 0x2000u16 + nnn,
            nnn < 0x1000u16,
    ;
}

/// A call of a subroutine whose first instruction is a return comes back to
/// the instruction after the call, with the stack as it was.
pub proof fn lemma_call_then_ret(s: MachineState, nnn: u16, r1: u8, r2: u8)
    requires
        s.wf(),
        s.waiting is None,
        s.sp < 16,
        s.pc + 2 <= 4096,
        nnn + 2 <= 4096,
        fetch_spec(s.memory, s.pc as int) == 0x2000 + nnn,
        fetch_spec(s.memory, nnn as int) == 0x00EE,
    ensures
        s.step(r1) matches Ok(t) && t.step(r2) matches Ok(u) && u.pc == s.pc + 2 && u.sp == s.sp,
{
    lemma_decode_call_ret(nnn);
}

/// The word 1nnn decodes to a jump to nnn.
pub proof fn lemma_decode_jump(nnn: u16)
    requires
        nnn < 0x1000,
    ensures
        decode_spec((0x1000 + nnn) as u16) == Some(Instruction::Jp { nnn }),
{
    let op = (0x1000 + nnn) as u16;
    assert(op & 0xF000u16 == 0x1000u16 && op & 0x0FFFu16 == nnn) by (bit_vector)
        requires
            op == 0x1000u16 + nnn,
            nnn < 0x1000u16,
    ;
}

/// A step on the word 1nnn sets the program counter to exactly nnn, with no
/// increment after the jump; a jump to itself loops in place.
pub proof fn lemma_jump_sets_pc(s: MachineState, nnn: u16, rnd: u8)
    requires
        s.wf(),
        s.waiting is None,
        s.pc + 2 <= 4096,
        nnn < 0x1000,
        fetch_spec(s.memory, s.pc as int) == 0x1000 + nnn,
    ensures
        s.step(rnd) matches Ok(t) && t == s.with_pc(nnn),
{
    lemma_decode_jump(nnn);
    assert(s.with_pc((s.pc + 2) as u16).with_pc(nnn) =~= s.with_pc(nnn));
}

/// Whether one of the first `n` rows of a sprite drawn at (x, y) hits pixel `k`.
pub open spec fn covered(x: int, y: int, sprite: Seq<u8>, n: int, k: int) -> bool {
    exists|r: int| 0 <= r < n && #[trigger] row_covers(x, y, r, sprite[r], k)
}

/// A pixel hit by row `r` lies in screen row (y + r) mod 32.
proof fn lemma_covered_row(x: int, y: int, r: int, byte: u8, k: int)
    requires
        x >= 0,
        y >= 0,
        r >= 0,
        row_covers(x, y, r, byte, k),
    ensures
        0 <= k < 2048,
        k / 64 == (y + r) % 32,
{
    let b = choose|b: int|
        0 <= b < 8 && #[trigger] sprite_bit(byte, b) && k == pixel_index((x + b) % 64, (y + r) % 32);
    let px = (x + b) % 64;
    let py = (y + r) % 32;
    vstd::arithmetic::div_mod::lemma_fundamental_div_mod_converse(k, 64, py, px);
}

/// Two rows of a sprite of at most 32 rows never hit the same pixel.
proof fn lemma_rows_disjoint(x: int, y: int, r1: int, r2: int, b1: u8, b2: u8, k: int)
    requires
        x >= 0,
        y >= 0,
        0 <= r1 < 32,
        0 <= r2 < 32,
        r1 != r2,
    ensures
        !(row_covers(x, y, r1, b1, k) && row_covers(x, y, r2, b2, k)),
{
    if row_covers(x, y, r1, b1, k) && row_covers(x, y, r2, b2, k) {
        lemma_covered_row(x, y, r1, b1, k);
        lemma_covered_row(x, y, r2, b2, k);
        vstd::arithmetic::div_mod::lemma_fundamental_div_mod(y, 32);
        let q = y / 32;
        let m = y % 32;
        if m + r1 < 32 {
            vstd::arithmetic::div_mod::lemma_fundamental_div_mod_converse(y + r1, 32, q, m + r1);
        } else {
            vstd::arithmetic::div_mod::lemma_fundamental_div_mod_converse(y + r1, 32, q + 1, m + r1 - 32);
        }
        if m + r2 < 32 {
            vstd::arithmetic::div_mod::lemma_fundamental_div_mod_converse(y + r2, 32, q, m + r2);
        } else {
            vstd::arithmetic::div_mod::lemma_fundamental_div_mod_converse(y + r2, 32, q + 1, m + r2 - 32);
        }
    }
}

/// For a sprite of at most 32 rows, drawing toggles exactly the pixels that
/// some row hits.
proof fn lemma_draw_closed(pix: Seq<bool>, x: int, y: int, sprite: Seq<u8>, n: nat)
    requires
        pix.len() == 2048,
        x >= 0,
        y >= 0,
        n <= 32,
        n <= sprite.len(),
    ensures
        draw_rows(pix, x, y, sprite, n).len() == 2048,
        forall|k: int|
            0 <= k < 2048 ==> #[trigger] draw_rows(pix, x, y, sprite, n)[k] == (pix[k] != covered(
                x,
                y,
                sprite,
                n as int,
                k,
            )),
    decreases n,
{
    if n > 0 {
        let m = (n - 1) as nat;
        lemma_draw_closed(pix, x, y, sprite, m);
        assert forall|k: int| 0 <= k < 2048 implies #[trigger] draw_rows(pix, x, y, sprite, n)[k] == (
        pix[k] != covered(x, y, sprite, n as int, k)) by {
            if row_covers(x, y, m as int, sprite[m as int], k) {
                if covered(x, y, sprite, m as int, k) {
                    let r = choose|r: int| 0 <= r < m && #[trigger] row_covers(x, y, r, sprite[r], k);
                    lemma_rows_disjoint(x, y, r, m as int, sprite[r], sprite[m as int], k);
                }
            }
            if covered(x, y, sprite, n as int, k) {
                let r = choose|r: int| 0 <= r < n && #[trigger] row_covers(x, y, r, sprite[r], k);
                if r < m {
                    assert(covered(x, y, sprite, m as int, k));
                }
            }
            if covered(x, y, sprite, m as int, k) {
                let r = choose|r: int| 0 <= r < m && #[trigger] row_covers(x, y, r, sprite[r], k);
                assert(covered(x, y, sprite, n as int, k));
            }
        }
    }
}

/// For a sprite of at most 32 rows, drawing collides exactly when some row
/// hits a pixel that was on.
proof fn lemma_collides_closed(pix: Seq<bool>, x: int, y: int, sprite: Seq<u8>, n: nat)
    requires
        pix.len() == 2048,
        x >= 0,
        y >= 0,
        n <= 32,
        n <= sprite.len(),
    ensures
        draw_collides(pix, x, y, sprite, n) == exists|k: int|
            0 <= k < 2048 && #[trigger] covered(x, y, sprite, n as int, k) && pix[k],
    decreases n,
{
    if n > 0 {
        let m = (n - 1) as nat;
        lemma_collides_closed(pix, x, y, sprite, m);
        lemma_draw_closed(pix, x, y, sprite, m);
        let q = draw_rows(pix, x, y, sprite, m);
        let row = sprite[m as int];
        if draw_collides(pix, x, y, sprite, n) {
            if draw_collides(pix, x, y, sprite, m) {
                let k = choose|k: int| 0 <= k < 2048 && #[trigger] covered(x, y, sprite, m as int, k) && pix[k];
                let r = choose|r: int| 0 <= r < m && #[trigger] row_covers(x, y, r, sprite[r], k);
                assert(covered(x, y, sprite, n as int, k));
            } else {
                assert(row_collides(q, x, y, m as int, row));
                let k = choose|k: int| 0 <= k < q.len() && #[trigger] row_covers(x, y, m as int, row, k) && q[k];
                lemma_covered_row(x, y, m as int, row, k);
                if covered(x, y, sprite, m as int, k) {
                    let r = choose|r: int| 0 <= r < m && #[trigger] row_covers(x, y, r, sprite[r], k);
                    lemma_rows_disjoint(x, y, r, m as int, sprite[r], row, k);
                }
                assert(covered(x, y, sprite, n as int, k));
            }
        }
        if exists|k: int| 0 <= k < 2048 && #[trigger] covered(x, y, sprite, n as int, k) && pix[k] {
            let k = choose|k: int| 0 <= k < 2048 && #[trigger] covered(x, y, sprite, n as int, k) && pix[k];
            let r = choose|r: int| 0 <= r < n && #[trigger] row_covers(x, y, r, sprite[r], k);
            if r < m {
                assert(covered(x, y, sprite, m as int, k));
            } else {
                if covered(x, y, sprite, m as int, k) {
                    let r2 = choose|r2: int| 0 <= r2 < m && #[trigger] row_covers(x, y, r2, sprite[r2], k);
                    lemma_rows_disjoint(x, y, r2, m as int, sprite[r2], row, k);
                }
                assert(q[k] == pix[k]);
                assert(row_collides(q, x, y, m as int, row));
            }
        }
    }
}

/// A non-zero byte has a set bit.
proof fn lemma_nonzero_has_bit(byte: u8)
    requires
        byte != 0,
    ensures
        exists|b: int| 0 <= b < 8 && #[trigger] sprite_bit(byte, b),
{
    assert(byte & (0x80u8 >> 0u8) != 0 || byte & (0x80u8 >> 1u8) != 0 || byte & (0x80u8 >> 2u8) != 0
        || byte & (0x80u8 >> 3u8) != 0 || byte & (0x80u8 >> 4u8) != 0 || byte & (0x80u8 >> 5u8) != 0
        || byte & (0x80u8 >> 6u8) != 0 || byte & (0x80u8 >> 7u8) != 0) by (bit_vector)
        requires
            byte != 0,
    ;
    if byte & (0x80u8 >> 0u8) != 0 {
        assert(sprite_bit(byte, 0));
    } else if byte & (0x80u8 >> 1u8) != 0 {
        assert(sprite_bit(byte, 1));
    } else if byte & (0x80u8 >> 2u8) != 0 {
        assert(sprite_bit(byte, 2));
    } else if byte & (0x80u8 >> 3u8) != 0 {
        assert(sprite_bit(byte, 3));
    } else if byte & (0x80u8 >> 4u8) != 0 {
        assert(sprite_bit(byte, 4));
    } else if byte & (0x80u8 >> 5u8) != 0 {
        assert(sprite_bit(byte, 5));
    } else if byte & (0x80u8 >> 6u8) != 0 {
        assert(sprite_bit(byte, 6));
    } else {
        assert(sprite_bit(byte, 7));
    }
}

/// On a blank screen, drawing a sprite of at most 32 rows reports no
/// collision; drawing it again at the same place turns every pixel off
/// again, and reports a collision if the sprite has a set bit.
pub proof fn lemma_draw_twice(x: int, y: int, sprite: Seq<u8>)
    requires
        x >= 0,
        y >= 0,
        sprite.len() <= 32,
    ensures
        ({
            let blank = Seq::new(2048, |k: int| false);
            let once = draw_rows(blank, x, y, sprite, sprite.len());
            &&& !draw_collides(blank, x, y, sprite, sprite.len())
            &&& draw_rows(once, x, y, sprite, sprite.len()) == blank
            &&& (exists|r: int| 0 <= r < sprite.len() && sprite[r] != 0) ==> draw_collides(
                once,
                x,
                y,
                sprite,
                sprite.len(),
            )
        }),
{
    let blank = Seq::new(2048, |k: int| false);
    let n = sprite.len();
    lemma_draw_closed(blank, x, y, sprite, n);
    let once = draw_rows(blank, x, y, sprite, n);
    lemma_draw_closed(once, x, y, sprite, n);
    lemma_collides_closed(blank, x, y, sprite, n);
    lemma_collides_closed(once, x, y, sprite, n);
    assert(draw_rows(once, x, y, sprite, n) =~= blank);
    if exists|r: int| 0 <= r < sprite.len() && sprite[r] != 0 {
        let r = choose|r: int| 0 <= r < sprite.len() && sprite[r] != 0;
        lemma_nonzero_has_bit(sprite[r]);
        let b = choose|b: int| 0 <= b < 8 && #[trigger] sprite_bit(sprite[r], b);
        let k = pixel_index((x + b) % 64, (y + r) % 32);
        assert(row_covers(x, y, r, sprite[r], k));
        lemma_covered_row(x, y, r, sprite[r], k);
        assert(covered(x, y, sprite, n as int, k));
        assert(once[k]);
    }
}

} // verus!
