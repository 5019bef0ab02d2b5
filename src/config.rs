use vstd::prelude::*;

verus! {

/// Size of the addressable memory, in bytes.
pub const CHIP8_MEMORY_SIZE: usize = 0x1000;

/// Address at which programs are loaded and execution starts.
pub const CHIP8_PROGRAM_LOAD_ADDRESS: usize = 0x200;

/// Width of the framebuffer, in pixels.
pub const CHIP8_WIDTH: usize = 64;

/// Height of the framebuffer, in pixels.
pub const CHIP8_HEIGHT: usize = 32;

/// Number of pixels of the framebuffer.
pub const CHIP8_PIXEL_COUNT: usize = 2048;

/// Number of bytes of the RGB draw buffer (three per pixel).
pub const CHIP8_COLOR_BYTES: usize = 6144;

/// Number of general-purpose registers V0..VF.
pub const CHIP8_DATA_REGISTER_COUNT: usize = 16;

/// Number of return addresses the call stack can hold.
pub const CHIP8_STACK_DEPTH: usize = 16;

/// Number of keys of the hexadecimal keypad.
pub const CHIP8_KEY_COUNT: usize = 16;

/// Number of bytes of the built-in font (16 glyphs of 5 rows).
pub const CHIP8_CHARACTER_SET_SIZE: usize = 80;

/// Height in rows of a built-in font glyph.
pub const CHIP8_DEFAULT_SPRITE_HEIGHT: u8 = 5;

/// Period of the delay and sound timers, in nanoseconds (1/60 s, rounded up).
pub const CHIP8_TIMER_PERIOD_NS: u64 = 16_666_667;

/// Period between two executed instructions, in nanoseconds (800 per second).
pub const CHIP8_EXEC_PERIOD_NS: u64 = 1_250_000;

/// Host key code of the `0` key; `0`..`9` follow in order.
pub const HOST_KEY_DIGIT_0: i32 = 48;

/// Host key code of the `a` key; `a`..`f` follow in order.
pub const HOST_KEY_LETTER_A: i32 = 97;

/// The keypad index that a host key code stands for, if any: the digit keys
/// give 0 to 9 and the letter keys `a` to `f` give 10 to 15.
pub open spec fn key_index_of(key: i32) -> Option<usize> {
    if HOST_KEY_DIGIT_0 <= key < HOST_KEY_DIGIT_0 + 10 {
        Some((key - HOST_KEY_DIGIT_0) as usize)
    } else if HOST_KEY_LETTER_A <= key < HOST_KEY_LETTER_A + 6 {
        Some((key - HOST_KEY_LETTER_A + 10) as usize)
    } else {
        None
    }
}

/// The host key code bound to keypad index `i` (for `i < 16`).
pub open spec fn host_key_of(i: int) -> i32 {
    if i < 10 {
        (HOST_KEY_DIGIT_0 + i) as i32
    } else {
        (HOST_KEY_LETTER_A + i - 10) as i32
    }
}

/// The fixed key table: entry `i` binds `host_key_of(i)` to index `i`.
pub open spec fn key_table() -> Seq<(i32, usize)> {
    Seq::new(16, |i: int| (host_key_of(i), i as usize))
}

/// Builds the table that binds the sixteen host keys to keypad indices.
pub fn create_key_map() -> (r: Vec<(i32, usize)>)
    ensures
        r@ == key_table(),
{
    let mut map: Vec<(i32, usize)> = Vec::with_capacity(CHIP8_KEY_COUNT);
    let mut i: usize = 0;
    while i < CHIP8_KEY_COUNT
        invariant
            i <= CHIP8_KEY_COUNT,
            map@ == key_table().take(i as int),
        decreases CHIP8_KEY_COUNT - i,
    {
        let key: i32 = if i < 10 {
            HOST_KEY_DIGIT_0 + i as i32
        } else {
            HOST_KEY_LETTER_A + (i as i32 - 10)
        };
        map.push((key, i));
        i = i + 1;
        assert(map@ =~= key_table().take(i as int));
    }
    assert(map@ =~= key_table());
    map
}

} // verus!
