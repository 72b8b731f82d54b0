//! The interpreter: memory and register model, instruction decode, and the
//! opcode execution engine.
//!
//! One call to [`Chip8::call_operation`] performs one interpreter step:
//! fetch the two bytes at the program counter, dispatch on the nibbles, apply
//! the instruction's effect and advance (or overwrite) the program counter.
//! The whole step is specified by the transition function [`spec_step`] over
//! the abstract state [`Chip8Abs`].

use vstd::prelude::*;

use crate::video::draw_pixels;
use crate::video::spec_collides;
use crate::video::sprite_has_set_bit;
use crate::video::Video;
use crate::video::VideoAbs;
use crate::Chip8Error;
use crate::FONT_BASE;
use crate::MAX_ROM_SIZE;
use crate::MEMORY_SIZE;
use crate::PIXEL_COUNT;
use crate::STACK_DEPTH;
use crate::START_PROGRAM;

verus! {

/// Mathematical model of the whole interpreter state.
#[verifier::ext_equal]
pub struct Chip8Abs {
    /// The 4096-byte address space.
    pub ram: Seq<u8>,
    /// The 16 general-purpose 8-bit registers; index 15 is the flag register.
    pub registers: Seq<u8>,
    /// The 16-bit memory index pointer `I`.
    pub index_register: u16,
    /// The delay timer.
    pub delay_register: u8,
    /// The sound timer.
    pub sound_register: u8,
    /// The program counter.
    pub program_counter: u16,
    /// The 16-entry call stack.
    pub stack: Seq<u16>,
    /// The call-stack depth, `0 ..= 16`.
    pub stack_pointer: u8,
    /// The 16 key states.
    pub keypad: Seq<bool>,
    /// When waiting for a key, the register that receives the key code.
    pub waiting_register: Option<u8>,
    /// The display.
    pub video: VideoAbs,
}

impl Chip8Abs {
    /// Well-formedness of the abstract state: the fixed-size parts have their
    /// size, the stack depth is within bounds, and a pending wait-for-key
    /// targets a general register.
    pub open spec fn wf(self) -> bool {
        &&& self.ram.len() == MEMORY_SIZE
        &&& self.registers.len() == 16
        &&& self.stack.len() == STACK_DEPTH
        &&& self.keypad.len() == 16
        &&& self.video.pixels.len() == PIXEL_COUNT
        &&& self.stack_pointer <= STACK_DEPTH
        &&& forall|i: int| 0 <= i < STACK_DEPTH ==> self.stack[i] < MEMORY_SIZE
        &&& match self.waiting_register {
            Some(x) => x < 15 && self.program_counter + 1 < MEMORY_SIZE,
            None => true,
        }
    }
}

/// Whether both instruction bytes at the program counter lie in memory.
pub open spec fn fetchable(a: Chip8Abs) -> bool {
    a.program_counter + 1 < MEMORY_SIZE
}

/// The 16-bit opcode at the program counter: high byte first.
pub open spec fn spec_opcode(a: Chip8Abs) -> u16 {
    ((a.ram[a.program_counter as int] as u16) << 8) | (a.ram[a.program_counter as int + 1] as u16)
}

/// First nibble (bits 15-12) of the instruction: the top-level operation.
pub open spec fn spec_hi(a: Chip8Abs) -> u8 {
    a.ram[a.program_counter as int] >> 4
}

/// Second nibble (bits 11-8): the register index X.
pub open spec fn spec_x(a: Chip8Abs) -> u8 {
    a.ram[a.program_counter as int] & 0xF
}

/// Third nibble (bits 7-4): the register index Y.
pub open spec fn spec_y(a: Chip8Abs) -> u8 {
    a.ram[a.program_counter as int + 1] >> 4
}

/// Fourth nibble (bits 3-0): the immediate N.
pub open spec fn spec_n(a: Chip8Abs) -> u8 {
    a.ram[a.program_counter as int + 1] & 0xF
}

/// Low byte (bits 7-0): the immediate KK.
pub open spec fn spec_kk(a: Chip8Abs) -> u8 {
    a.ram[a.program_counter as int + 1]
}

/// Low 12 bits: the address NNN.
pub open spec fn spec_nnn(a: Chip8Abs) -> u16 {
    spec_opcode(a) & 0x0FFF
}

/// The state with the program counter advanced past one instruction.
pub open spec fn spec_advanced(a: Chip8Abs) -> Chip8Abs {
    Chip8Abs { program_counter: (a.program_counter + 2) as u16, ..a }
}

/// The built-in font: 16 glyphs (digits 0-F) of 5 bytes each.
pub open spec fn font_table() -> Seq<u8> {
    seq![
        0xF0u8, 0x90, 0x90, 0x90, 0xF0, // 0
        0x20, 0x60, 0x20, 0x20, 0x70, // 1
        0xF0, 0x10, 0xF0, 0x80, 0xF0, // 2
        0xF0, 0x10, 0xF0, 0x10, 0xF0, // 3
        0x90, 0x90, 0xF0, 0x10, 0x10, // 4
        0xF0, 0x80, 0xF0, 0x10, 0xF0, // 5
        0xF0, 0x80, 0xF0, 0x90, 0xF0, // 6
        0xF0, 0x10, 0x20, 0x40, 0x40, // 7
        0xF0, 0x90, 0xF0, 0x90, 0xF0, // 8
        0xF0, 0x90, 0xF0, 0x10, 0xF0, // 9
        0xF0, 0x90, 0xF0, 0x90, 0x90, // A
        0xE0, 0x90, 0xE0, 0x90, 0xE0, // B
        0xF0, 0x80, 0x80, 0x80, 0xF0, // C
        0xE0, 0x90, 0x90, 0x90, 0xE0, // D
        0xF0, 0x80, 0xF0, 0x80, 0xF0, // E
        0xF0, 0x80, 0xF0, 0x80, 0x80, // F
    ]
}

/// Effect of `00E0`: clear the display, advance.
pub open spec fn spec_op_00e0(a: Chip8Abs) -> Chip8Abs {
    Chip8Abs {
        video: VideoAbs {
            pixels: Seq::new(PIXEL_COUNT as nat, |i: int| false),
            should_render: true,
        },
        program_counter: (a.program_counter + 2) as u16,
        ..a
    }
}

/// Effect of `00EE` with a non-empty stack: pop the return address, resume
/// just past the call.
pub open spec fn spec_op_00ee(a: Chip8Abs) -> Chip8Abs {
    Chip8Abs {
        program_counter: (a.stack[a.stack_pointer - 1] + 2) as u16,
        stack_pointer: (a.stack_pointer - 1) as u8,
        ..a
    }
}

/// Effect of `1NNN`: jump.
pub open spec fn spec_op_1nnn(a: Chip8Abs, nnn: u16) -> Chip8Abs {
    Chip8Abs { program_counter: nnn, ..a }
}

/// Effect of `2NNN` with a non-full stack: push the call-site address, jump.
pub open spec fn spec_op_2nnn(a: Chip8Abs, nnn: u16) -> Chip8Abs {
    Chip8Abs {
        stack: a.stack.update(a.stack_pointer as int, a.program_counter),
        stack_pointer: (a.stack_pointer + 1) as u8,
        program_counter: nnn,
        ..a
    }
}

/// Effect of `3XKK`: skip the next instruction when `V[X] == KK`.
pub open spec fn spec_op_3xkk(a: Chip8Abs, x: int, kk: u8) -> Chip8Abs {
    Chip8Abs {
        program_counter: if a.registers[x] == kk {
            (a.program_counter + 4) as u16
        } else {
            (a.program_counter + 2) as u16
        },
        ..a
    }
}

/// Effect of `4XKK`: skip the next instruction when `V[X] != KK`.
pub open spec fn spec_op_4xkk(a: Chip8Abs, x: int, kk: u8) -> Chip8Abs {
    Chip8Abs {
        program_counter: if a.registers[x] != kk {
            (a.program_counter + 4) as u16
        } else {
            (a.program_counter + 2) as u16
        },
        ..a
    }
}

/// Effect of `5XY0`: skip the next instruction when `V[X] == V[Y]`.
pub open spec fn spec_op_5xy0(a: Chip8Abs, x: int, y: int) -> Chip8Abs {
    Chip8Abs {
        program_counter: if a.registers[x] == a.registers[y] {
            (a.program_counter + 4) as u16
        } else {
            (a.program_counter + 2) as u16
        },
        ..a
    }
}

/// Effect of `6XKK`: `V[X] <- KK`, advance.
pub open spec fn spec_op_6xkk(a: Chip8Abs, x: int, kk: u8) -> Chip8Abs {
    Chip8Abs {
        registers: a.registers.update(x, kk),
        program_counter: (a.program_counter + 2) as u16,
        ..a
    }
}

/// Effect of `7XKK`: `V[X] <- V[X] + KK` modulo 256, flags untouched, advance.
pub open spec fn spec_op_7xkk(a: Chip8Abs, x: int, kk: u8) -> Chip8Abs {
    Chip8Abs {
        registers: a.registers.update(x, ((a.registers[x] + kk) % 256) as u8),
        program_counter: (a.program_counter + 2) as u16,
        ..a
    }
}

/// Effect of `8XY0`: `V[X] <- V[Y]` (program counter left to the dispatcher).
pub open spec fn spec_op_8xy0(a: Chip8Abs, x: int, y: int) -> Chip8Abs {
    Chip8Abs { registers: a.registers.update(x, a.registers[y]), ..a }
}

/// Effect of `8XY1`: `V[X] <- V[X] | V[Y]`.
pub open spec fn spec_op_8xy1(a: Chip8Abs, x: int, y: int) -> Chip8Abs {
    Chip8Abs { registers: a.registers.update(x, a.registers[x] | a.registers[y]), ..a }
}

/// Effect of `8XY2`: `V[X] <- V[X] & V[Y]`.
pub open spec fn spec_op_8xy2(a: Chip8Abs, x: int, y: int) -> Chip8Abs {
    Chip8Abs { registers: a.registers.update(x, a.registers[x] & a.registers[y]), ..a }
}

/// Effect of `8XY3`: `V[X] <- V[X] ^ V[Y]`.
pub open spec fn spec_op_8xy3(a: Chip8Abs, x: int, y: int) -> Chip8Abs {
    Chip8Abs { registers: a.registers.update(x, a.registers[x] ^ a.registers[y]), ..a }
}

/// Effect of `8XY4`: `V[X] <- V[X] + V[Y]` modulo 256, carry into the flag.
pub open spec fn spec_op_8xy4(a: Chip8Abs, x: int, y: int) -> Chip8Abs {
    Chip8Abs {
        registers: a.registers.update(
            15,
            if a.registers[x] + a.registers[y] > 255 {
                1u8
            } else {
                0u8
            },
        ).update(x, ((a.registers[x] + a.registers[y]) % 256) as u8),
        ..a
    }
}

/// Effect of `8XY5`: `V[X] <- V[X] - V[Y]` with 8-bit wraparound; the flag is
/// 1 exactly when no borrow occurred (`V[X] >= V[Y]`).
pub open spec fn spec_op_8xy5(a: Chip8Abs, x: int, y: int) -> Chip8Abs {
    Chip8Abs {
        registers: a.registers.update(
            15,
            if a.registers[x] >= a.registers[y] {
                1u8
            } else {
                0u8
            },
        ).update(
            x,
            if a.registers[x] >= a.registers[y] {
                (a.registers[x] - a.registers[y]) as u8
            } else {
                (a.registers[x] - a.registers[y] + 256) as u8
            },
        ),
        ..a
    }
}

/// Effect of `8XY6`: the flag receives bit 0 of `V[X]`, then `V[X]` shifts
/// right once.
pub open spec fn spec_op_8xy6(a: Chip8Abs, x: int) -> Chip8Abs {
    Chip8Abs {
        registers: a.registers.update(15, a.registers[x] & 1).update(x, a.registers[x] >> 1),
        ..a
    }
}

/// Effect of `8XY7`: `V[X] <- V[Y] - V[X]` with 8-bit wraparound; the flag is
/// 1 exactly when no borrow occurred (`V[Y] >= V[X]`).
pub open spec fn spec_op_8xy7(a: Chip8Abs, x: int, y: int) -> Chip8Abs {
    Chip8Abs {
        registers: a.registers.update(
            15,
            if a.registers[y] >= a.registers[x] {
                1u8
            } else {
                0u8
            },
        ).update(
            x,
            if a.registers[y] >= a.registers[x] {
                (a.registers[y] - a.registers[x]) as u8
            } else {
                (a.registers[y] - a.registers[x] + 256) as u8
            },
        ),
        ..a
    }
}

/// Effect of `8XYE`: the flag receives bit 7 of `V[X]` normalized to 0/1,
/// then `V[X]` shifts left once, truncated to 8 bits.
pub open spec fn spec_op_8xye(a: Chip8Abs, x: int) -> Chip8Abs {
    Chip8Abs {
        registers: a.registers.update(15, (a.registers[x] >> 7) & 1).update(
            x,
            ((a.registers[x] * 2) % 256) as u8,
        ),
        ..a
    }
}

/// Effect of `9XY0`: skip the next instruction when `V[X] != V[Y]`.
pub open spec fn spec_op_9xy0(a: Chip8Abs, x: int, y: int) -> Chip8Abs {
    Chip8Abs {
        program_counter: if a.registers[x] != a.registers[y] {
            (a.program_counter + 4) as u16
        } else {
            (a.program_counter + 2) as u16
        },
        ..a
    }
}

/// Effect of `ANNN`: `I <- NNN`, advance.
pub open spec fn spec_op_annn(a: Chip8Abs, nnn: u16) -> Chip8Abs {
    Chip8Abs { index_register: nnn, program_counter: (a.program_counter + 2) as u16, ..a }
}

/// Effect of `BNNN`: jump to `V[0] + NNN`.
pub open spec fn spec_op_bnnn(a: Chip8Abs, nnn: u16) -> Chip8Abs {
    Chip8Abs { program_counter: (a.registers[0] + nnn) as u16, ..a }
}

/// Effect of `CXKK` with the random byte the host supplied:
/// `V[X] <- rand & KK`, advance.
pub open spec fn spec_op_cxkk(a: Chip8Abs, x: int, kk: u8, rand: u8) -> Chip8Abs {
    Chip8Abs {
        registers: a.registers.update(x, rand & kk),
        program_counter: (a.program_counter + 2) as u16,
        ..a
    }
}

/// Effect of `DXYN`: draw the N-row sprite at `Memory[I ..)` at position
/// `(V[X] mod 64, V[Y] mod 32)`; the flag records whether any pixel was
/// turned off; the display is marked dirty when any pixel changed; advance.
pub open spec fn spec_op_dxyn(a: Chip8Abs, x: int, y: int, n: int) -> Chip8Abs {
    let sx = a.registers[x] % 64;
    let sy = a.registers[y] % 32;
    let sprite = a.ram.subrange(a.index_register as int, a.index_register + n);
    let collided = spec_collides(a.video.pixels, sx as int, sy as int, sprite);
    Chip8Abs {
        registers: a.registers.update(
            15,
            if collided {
                1u8
            } else {
                0u8
            },
        ),
        video: VideoAbs {
            pixels: draw_pixels(a.video.pixels, sx as int, sy as int, sprite),
            should_render: a.video.should_render || sprite_has_set_bit(sprite),
        },
        program_counter: (a.program_counter + 2) as u16,
        ..a
    }
}

/// Whether the key named by register value `v` is pressed; values outside
/// the 16-key pad count as not pressed.
pub open spec fn spec_key_down(keypad: Seq<bool>, v: u8) -> bool {
    v < 16 && keypad[v as int]
}

/// Effect of `EX9E`: skip the next instruction when key `V[X]` is pressed.
pub open spec fn spec_op_ex9e(a: Chip8Abs, x: int) -> Chip8Abs {
    Chip8Abs {
        program_counter: if spec_key_down(a.keypad, a.registers[x]) {
            (a.program_counter + 4) as u16
        } else {
            (a.program_counter + 2) as u16
        },
        ..a
    }
}

/// Effect of `EXA1`: skip the next instruction when key `V[X]` is not
/// pressed.
pub open spec fn spec_op_exa1(a: Chip8Abs, x: int) -> Chip8Abs {
    Chip8Abs {
        program_counter: if !spec_key_down(a.keypad, a.registers[x]) {
            (a.program_counter + 4) as u16
        } else {
            (a.program_counter + 2) as u16
        },
        ..a
    }
}

/// Effect of `FX07`: `V[X] <- delay_timer` (program counter left to the
/// dispatcher).
pub open spec fn spec_op_fx07(a: Chip8Abs, x: int) -> Chip8Abs {
    Chip8Abs { registers: a.registers.update(x, a.delay_register), ..a }
}

/// Effect of `FX0A`: enter the waiting-for-key state with `X` as the target
/// register; the program counter does not move until a key is captured.
pub open spec fn spec_op_fx0a(a: Chip8Abs, x: int) -> Chip8Abs {
    Chip8Abs { waiting_register: Some(x as u8), ..a }
}

/// Effect of `FX15`: `delay_timer <- V[X]`.
pub open spec fn spec_op_fx15(a: Chip8Abs, x: int) -> Chip8Abs {
    Chip8Abs { delay_register: a.registers[x], ..a }
}

/// Effect of `FX18`: `sound_timer <- V[X]`.
pub open spec fn spec_op_fx18(a: Chip8Abs, x: int) -> Chip8Abs {
    Chip8Abs { sound_register: a.registers[x], ..a }
}

/// Effect of `FX1E`: `I <- I + V[X]` in 16-bit arithmetic.
pub open spec fn spec_op_fx1e(a: Chip8Abs, x: int) -> Chip8Abs {
    Chip8Abs {
        index_register: ((a.index_register + a.registers[x]) % 0x10000) as u16,
        ..a
    }
}

/// Effect of `FX29`: point `I` at the font glyph for `V[X]`.
pub open spec fn spec_op_fx29(a: Chip8Abs, x: int) -> Chip8Abs {
    Chip8Abs { index_register: (FONT_BASE + a.registers[x] * 5) as u16, ..a }
}

/// Effect of `FX33`: store the three decimal digits of `V[X]` (hundreds,
/// tens, units) at `Memory[I .. I+3)`.
pub open spec fn spec_op_fx33(a: Chip8Abs, x: int) -> Chip8Abs {
    Chip8Abs {
        ram: a.ram.update(a.index_register as int, (a.registers[x] as int / 100) as u8).update(
            a.index_register + 1,
            ((a.registers[x] as int / 10) % 10) as u8,
        ).update(a.index_register + 2, (a.registers[x] as int % 10) as u8),
        ..a
    }
}

/// Effect of `FX55`: store `V[0 ..= X]` into `Memory[I .. I+X+1)`.
pub open spec fn spec_op_fx55(a: Chip8Abs, x: int) -> Chip8Abs {
    Chip8Abs {
        ram: Seq::new(
            MEMORY_SIZE as nat,
            |ad: int|
                if a.index_register <= ad <= a.index_register + x {
                    a.registers[ad - a.index_register]
                } else {
                    a.ram[ad]
                },
        ),
        ..a
    }
}

/// Effect of `FX65`: load `Memory[I .. I+X+1)` into `V[0 ..= X]`.
pub open spec fn spec_op_fx65(a: Chip8Abs, x: int) -> Chip8Abs {
    Chip8Abs {
        registers: Seq::new(
            16,
            |r: int|
                if 0 <= r <= x {
                    a.ram[a.index_register + r]
                } else {
                    a.registers[r]
                },
        ),
        ..a
    }
}

/// The lowest-numbered pressed key at or above index `i`, if any.
pub open spec fn first_pressed(keys: Seq<bool>, i: int) -> Option<u8>
    decreases 16 - i,
{
    if i < 0 || i >= 16 {
        Option::None
    } else if keys[i] {
        Option::Some(i as u8)
    } else {
        first_pressed(keys, i + 1)
    }
}

/// One step taken in the waiting-for-key state with target register `x`:
/// when some key is pressed, the lowest-numbered one is written to `V[x]`,
/// the wait ends, and the program counter moves past the wait instruction;
/// otherwise nothing changes.
pub open spec fn spec_key_capture(a: Chip8Abs, x: int) -> Chip8Abs {
    match first_pressed(a.keypad, 0) {
        Option::None => a,
        Option::Some(k) => Chip8Abs {
            registers: a.registers.update(x, k),
            waiting_register: Option::None,
            program_counter: (a.program_counter + 2) as u16,
            ..a
        },
    }
}

/// Effect of one 60 Hz timer tick: both timers go down by one, floored at 0.
pub open spec fn spec_tick(a: Chip8Abs) -> Chip8Abs {
    Chip8Abs {
        delay_register: if a.delay_register > 0 {
            (a.delay_register - 1) as u8
        } else {
            0u8
        },
        sound_register: if a.sound_register > 0 {
            (a.sound_register - 1) as u8
        } else {
            0u8
        },
        ..a
    }
}

/// Dispatch of the `0x0` opcode family on the low byte.
pub open spec fn spec_table_0(a: Chip8Abs) -> (Chip8Abs, Result<(), Chip8Error>) {
    if spec_kk(a) == 0xE0 {
        (spec_op_00e0(a), Ok(()))
    } else if spec_kk(a) == 0xEE {
        if a.stack_pointer == 0 {
            (a, Err(Chip8Error::StackUnderflow))
        } else {
            (spec_op_00ee(a), Ok(()))
        }
    } else {
        (spec_advanced(a), Err(Chip8Error::UnknownOpcode))
    }
}

/// Dispatch of the `0x8` opcode family on the fourth nibble, after the
/// operand check: register 0xF may not be named as an operand.
pub open spec fn spec_table_8(a: Chip8Abs) -> (Chip8Abs, Result<(), Chip8Error>) {
    let x = spec_x(a) as int;
    let y = spec_y(a) as int;
    let n = spec_n(a);
    if x == 15 || y == 15 {
        (spec_advanced(a), Err(Chip8Error::InvalidRegisterOperand))
    } else if n == 0x0 {
        (spec_advanced(spec_op_8xy0(a, x, y)), Ok(()))
    } else if n == 0x1 {
        (spec_advanced(spec_op_8xy1(a, x, y)), Ok(()))
    } else if n == 0x2 {
        (spec_advanced(spec_op_8xy2(a, x, y)), Ok(()))
    } else if n == 0x3 {
        (spec_advanced(spec_op_8xy3(a, x, y)), Ok(()))
    } else if n == 0x4 {
        (spec_advanced(spec_op_8xy4(a, x, y)), Ok(()))
    } else if n == 0x5 {
        (spec_advanced(spec_op_8xy5(a, x, y)), Ok(()))
    } else if n == 0x6 {
        (spec_advanced(spec_op_8xy6(a, x)), Ok(()))
    } else if n == 0x7 {
        (spec_advanced(spec_op_8xy7(a, x, y)), Ok(()))
    } else if n == 0xE {
        (spec_advanced(spec_op_8xye(a, x)), Ok(()))
    } else {
        (spec_advanced(a), Err(Chip8Error::UnknownOpcode))
    }
}

/// Dispatch of the `0xE` opcode family on the low byte, after the operand
/// check.
pub open spec fn spec_table_e(a: Chip8Abs) -> (Chip8Abs, Result<(), Chip8Error>) {
    let x = spec_x(a) as int;
    if spec_kk(a) == 0x9E {
        if x == 15 {
            (spec_advanced(a), Err(Chip8Error::InvalidRegisterOperand))
        } else {
            (spec_op_ex9e(a, x), Ok(()))
        }
    } else if spec_kk(a) == 0xA1 {
        if x == 15 {
            (spec_advanced(a), Err(Chip8Error::InvalidRegisterOperand))
        } else {
            (spec_op_exa1(a, x), Ok(()))
        }
    } else {
        (spec_advanced(a), Err(Chip8Error::UnknownOpcode))
    }
}

/// Dispatch of the `0xF` opcode family on the low byte.  The operand check
/// comes first, as the operand register is common to the whole family; the
/// memory-touching members are refused, untouched, when `I` would resolve
/// outside memory.
pub open spec fn spec_table_f(a: Chip8Abs) -> (Chip8Abs, Result<(), Chip8Error>) {
    let x = spec_x(a) as int;
    let kk = spec_kk(a);
    if x == 15 {
        (spec_advanced(a), Err(Chip8Error::InvalidRegisterOperand))
    } else if kk == 0x07 {
        (spec_advanced(spec_op_fx07(a, x)), Ok(()))
    } else if kk == 0x0A {
        (spec_op_fx0a(a, x), Ok(()))
    } else if kk == 0x15 {
        (spec_advanced(spec_op_fx15(a, x)), Ok(()))
    } else if kk == 0x18 {
        (spec_advanced(spec_op_fx18(a, x)), Ok(()))
    } else if kk == 0x1E {
        (spec_advanced(spec_op_fx1e(a, x)), Ok(()))
    } else if kk == 0x29 {
        (spec_advanced(spec_op_fx29(a, x)), Ok(()))
    } else if kk == 0x33 {
        if a.index_register + 3 > MEMORY_SIZE {
            (a, Err(Chip8Error::MemoryOutOfRange))
        } else {
            (spec_advanced(spec_op_fx33(a, x)), Ok(()))
        }
    } else if kk == 0x55 {
        if a.index_register + x + 1 > MEMORY_SIZE {
            (a, Err(Chip8Error::MemoryOutOfRange))
        } else {
            (spec_advanced(spec_op_fx55(a, x)), Ok(()))
        }
    } else if kk == 0x65 {
        if a.index_register + x + 1 > MEMORY_SIZE {
            (a, Err(Chip8Error::MemoryOutOfRange))
        } else {
            (spec_advanced(spec_op_fx65(a, x)), Ok(()))
        }
    } else {
        (spec_advanced(a), Err(Chip8Error::UnknownOpcode))
    }
}

/// One interpreter step on the abstract state, with the random byte the host
/// supplied for a possible `CXKK`.
///
/// In the waiting-for-key state the step only polls the keypad.  Otherwise
/// the instruction at the program counter is fetched (an unfetchable program
/// counter is reported, untouched), dispatched on the first nibble, and its
/// effect applied.  The second component reports how the step went wrong, if
/// it did; the first is the state afterwards.
pub open spec fn spec_step(a: Chip8Abs, rand: u8) -> (Chip8Abs, Result<(), Chip8Error>) {
    match a.waiting_register {
        Option::Some(x) => (spec_key_capture(a, x as int), Ok(())),
        Option::None => {
            if !fetchable(a) {
                (a, Err(Chip8Error::MemoryOutOfRange))
            } else {
                let hi = spec_hi(a);
                let x = spec_x(a) as int;
                let y = spec_y(a) as int;
                let kk = spec_kk(a);
                let nnn = spec_nnn(a);
                let n = spec_n(a) as int;
                if hi == 0x0 {
                    spec_table_0(a)
                } else if hi == 0x1 {
                    (spec_op_1nnn(a, nnn), Ok(()))
                } else if hi == 0x2 {
                    if a.stack_pointer == STACK_DEPTH {
                        (a, Err(Chip8Error::StackOverflow))
                    } else {
                        (spec_op_2nnn(a, nnn), Ok(()))
                    }
                } else if hi == 0x3 {
                    if x == 15 {
                        (spec_advanced(a), Err(Chip8Error::InvalidRegisterOperand))
                    } else {
                        (spec_op_3xkk(a, x, kk), Ok(()))
                    }
                } else if hi == 0x4 {
                    if x == 15 {
                        (spec_advanced(a), Err(Chip8Error::InvalidRegisterOperand))
                    } else {
                        (spec_op_4xkk(a, x, kk), Ok(()))
                    }
                } else if hi == 0x5 {
                    if x == 15 || y == 15 {
                        (spec_advanced(a), Err(Chip8Error::InvalidRegisterOperand))
                    } else {
                        (spec_op_5xy0(a, x, y), Ok(()))
                    }
                } else if hi == 0x6 {
                    if x == 15 {
                        (spec_advanced(a), Err(Chip8Error::InvalidRegisterOperand))
                    } else {
                        (spec_op_6xkk(a, x, kk), Ok(()))
                    }
                } else if hi == 0x7 {
                    if x == 15 {
                        (spec_advanced(a), Err(Chip8Error::InvalidRegisterOperand))
                    } else {
                        (spec_op_7xkk(a, x, kk), Ok(()))
                    }
                } else if hi == 0x8 {
                    spec_table_8(a)
                } else if hi == 0x9 {
                    if x == 15 || y == 15 {
                        (spec_advanced(a), Err(Chip8Error::InvalidRegisterOperand))
                    } else {
                        (spec_op_9xy0(a, x, y), Ok(()))
                    }
                } else if hi == 0xA {
                    (spec_op_annn(a, nnn), Ok(()))
                } else if hi == 0xB {
                    (spec_op_bnnn(a, nnn), Ok(()))
                } else if hi == 0xC {
                    if x == 15 {
                        (spec_advanced(a), Err(Chip8Error::InvalidRegisterOperand))
                    } else {
                        (spec_op_cxkk(a, x, kk, rand), Ok(()))
                    }
                } else if hi == 0xD {
                    if x == 15 || y == 15 {
                        (spec_advanced(a), Err(Chip8Error::InvalidRegisterOperand))
                    } else if a.index_register + n > MEMORY_SIZE {
                        (a, Err(Chip8Error::MemoryOutOfRange))
                    } else {
                        (spec_op_dxyn(a, x, y, n), Ok(()))
                    }
                } else if hi == 0xE {
                    spec_table_e(a)
                } else {
                    spec_table_f(a)
                }
            }
        },
    }
}

/// The interpreter.
pub struct Chip8 {
    /// The 4096-byte address space, readable by the host.
    pub ram: Vec<u8>,
    registers: Vec<u8>,
    index_register: u16,
    delay_register: u8,
    sound_register: u8,
    program_counter: u16,
    stack: Vec<u16>,
    stack_pointer: u8,
    keypad: Vec<bool>,
    waiting_register: Option<u8>,
    /// The display, readable by the host.
    pub video: Video,
}

impl View for Chip8 {
    type V = Chip8Abs;

    closed spec fn view(&self) -> Chip8Abs {
        Chip8Abs {
            ram: self.ram@,
            registers: self.registers@,
            index_register: self.index_register,
            delay_register: self.delay_register,
            sound_register: self.sound_register,
            program_counter: self.program_counter,
            stack: self.stack@,
            stack_pointer: self.stack_pointer,
            keypad: self.keypad@,
            waiting_register: self.waiting_register,
            video: self.video@,
        }
    }
}

impl Chip8 {
    /// Well-formedness of the interpreter state.
    pub open spec fn wf(&self) -> bool {
        self@.wf()
    }

    /// A fresh interpreter: memory, registers, stack, keypad and display all
    /// zeroed, program counter at the program start address.
    pub fn new() -> (c: Chip8)
        ensures
            c.wf(),
            c@.ram =~= Seq::new(MEMORY_SIZE as nat, |i: int| 0u8),
            c@.registers =~= Seq::new(16, |i: int| 0u8),
            c@.index_register == 0,
            c@.delay_register == 0,
            c@.sound_register == 0,
            c@.program_counter == START_PROGRAM,
            c@.stack =~= Seq::new(STACK_DEPTH as nat, |i: int| 0u16),
            c@.stack_pointer == 0,
            c@.keypad =~= Seq::new(16, |i: int| false),
            c@.waiting_register is None,
            c@.video.pixels =~= Seq::new(PIXEL_COUNT as nat, |i: int| false),
            !c@.video.should_render,
    {
        Chip8 {
            ram: zero_bytes(MEMORY_SIZE),
            registers: zero_bytes(16),
            index_register: 0,
            delay_register: 0,
            sound_register: 0,
            program_counter: START_PROGRAM,
            stack: zero_words(STACK_DEPTH),
            stack_pointer: 0,
            keypad: up_keys(),
            waiting_register: None,
            video: Video::new(),
        }
    }

    /// Copy the built-in font table into memory at the font base address.
    pub fn load_font(&mut self)
        requires
            old(self).wf(),
        ensures
            final(self).wf(),
            final(self)@ == (Chip8Abs {
                ram: Seq::new(
                    MEMORY_SIZE as nat,
                    |a: int|
                        if FONT_BASE <= a < FONT_BASE + 80 {
                            font_table()[a - FONT_BASE]
                        } else {
                            old(self)@.ram[a]
                        },
                ),
                ..old(self)@
            }),
    {
        let font: [u8; 80] = [0xF0, 0x90, 0x90, 0x90, 0xF0, 0x20, 0x60, 0x20, 0x20, 0x70, 0xF0,
            0x10, 0xF0, 0x80, 0xF0, 0xF0, 0x10, 0xF0, 0x10, 0xF0, 0x90, 0x90, 0xF0, 0x10, 0x10,
            0xF0, 0x80, 0xF0, 0x10, 0xF0, 0xF0, 0x80, 0xF0, 0x90, 0xF0, 0xF0, 0x10, 0x20, 0x40,
            0x40, 0xF0, 0x90, 0xF0, 0x90, 0xF0, 0xF0, 0x90, 0xF0, 0x10, 0xF0, 0xF0, 0x90, 0xF0,
            0x90, 0x90, 0xE0, 0x90, 0xE0, 0x90, 0xE0, 0xF0, 0x80, 0x80, 0x80, 0xF0, 0xE0, 0x90,
            0x90, 0x90, 0xE0, 0xF0, 0x80, 0xF0, 0x80, 0xF0, 0xF0, 0x80, 0xF0, 0x80, 0x80];
        assert(font@ =~= font_table());
        let ghost ram0 = self.ram@;
        let mut pos: usize = 0;
        while pos < 80
            invariant
                pos <= 80,
                old(self).wf(),
                self.ram@.len() == MEMORY_SIZE,
                font@ =~= font_table(),
                forall|a: int|
                    0 <= a < MEMORY_SIZE ==> self.ram@[a] == (if FONT_BASE <= a < FONT_BASE + pos {
                        font_table()[a - FONT_BASE]
                    } else {
                        ram0[a]
                    }),
                self.registers == old(self).registers,
                self.index_register == old(self).index_register,
                self.delay_register == old(self).delay_register,
                self.sound_register == old(self).sound_register,
                self.program_counter == old(self).program_counter,
                self.stack == old(self).stack,
                self.stack_pointer == old(self).stack_pointer,
                self.keypad == old(self).keypad,
                self.waiting_register == old(self).waiting_register,
                self.video == old(self).video,
            decreases 80 - pos,
        {
            let b: u8 = font[pos];
            self.ram.set(0x50 + pos, b);
            pos = pos + 1;
        }
    }

    /// Load a program into memory starting at the program start address.
    /// A ROM larger than the remaining address space is rejected whole.
    pub fn load_rom(&mut self, rom: Vec<u8>) -> (r: Result<(), Chip8Error>)
        requires
            old(self).wf(),
        ensures
            final(self).wf(),
            rom@.len() <= MAX_ROM_SIZE ==> r == Ok::<(), Chip8Error>(()) && final(self)@ == (
            Chip8Abs {
                ram: Seq::new(
                    MEMORY_SIZE as nat,
                    |a: int|
                        if START_PROGRAM <= a < START_PROGRAM + rom@.len() {
                            rom@[a - START_PROGRAM]
                        } else {
                            old(self)@.ram[a]
                        },
                ),
                ..old(self)@
            }),
            rom@.len() > MAX_ROM_SIZE ==> r == Err::<(), Chip8Error>(
                Chip8Error::MemoryOutOfRange,
            ) && final(self)@ == old(self)@,
    {
        if rom.len() > MAX_ROM_SIZE {
            return Err(Chip8Error::MemoryOutOfRange);
        }
        let ghost ram0 = self.ram@;
        let n: usize = rom.len();
        let mut i: usize = 0;
        while i < n
            invariant
                i <= n,
                n == rom@.len() <= MAX_ROM_SIZE,
                old(self).wf(),
                self.ram@.len() == MEMORY_SIZE,
                forall|a: int|
                    0 <= a < MEMORY_SIZE ==> self.ram@[a] == (if START_PROGRAM <= a < START_PROGRAM
                        + i {
                        rom@[a - START_PROGRAM]
                    } else {
                        ram0[a]
                    }),
                self.registers == old(self).registers,
                self.index_register == old(self).index_register,
                self.delay_register == old(self).delay_register,
                self.sound_register == old(self).sound_register,
                self.program_counter == old(self).program_counter,
                self.stack == old(self).stack,
                self.stack_pointer == old(self).stack_pointer,
                self.keypad == old(self).keypad,
                self.waiting_register == old(self).waiting_register,
                self.video == old(self).video,
            decreases n - i,
        {
            let b: u8 = rom[i];
            self.ram.set(START_PROGRAM as usize + i, b);
            i = i + 1;
        }
        Ok(())
    }

    /// The 16-bit opcode at the program counter.
    fn get_opcode(&self) -> (op: u16)
        requires
            self.wf(),
            fetchable(self@),
        ensures
            op == spec_opcode(self@),
    {
        ((self.ram[self.program_counter as usize] as u16) << 8) | (self.ram[self.program_counter
            as usize + 1] as u16)
    }

    /// First nibble of the instruction.
    fn get_first_octet(&self) -> (r: u8)
        requires
            self.wf(),
            fetchable(self@),
        ensures
            r == spec_hi(self@),
            r < 16,
    {
        let b: u8 = self.ram[self.program_counter as usize];
        let r: u8 = b >> 4;
        assert(b >> 4 < 16) by (bit_vector);
        r
    }

    /// Second nibble: the register index X.
    fn get_second_octet(&self) -> (r: u8)
        requires
            self.wf(),
            fetchable(self@),
        ensures
            r == spec_x(self@),
            r < 16,
    {
        let b: u8 = self.ram[self.program_counter as usize];
        let r: u8 = b & 0x0F;
        assert(b & 0x0F < 16) by (bit_vector);
        r
    }

    /// Third nibble: the register index Y.
    fn get_third_octet(&self) -> (r: u8)
        requires
            self.wf(),
            fetchable(self@),
        ensures
            r == spec_y(self@),
            r < 16,
    {
        let b: u8 = self.ram[self.program_counter as usize + 1];
        let r: u8 = b >> 4;
        assert(b >> 4 < 16) by (bit_vector);
        r
    }

    /// Fourth nibble: the immediate N.
    fn get_fourth_octet(&self) -> (r: u8)
        requires
            self.wf(),
            fetchable(self@),
        ensures
            r == spec_n(self@),
            r < 16,
    {
        let b: u8 = self.ram[self.program_counter as usize + 1];
        let r: u8 = b & 0x0F;
        assert(b & 0x0F < 16) by (bit_vector);
        r
    }

    /// Low byte of the instruction: the immediate KK.
    fn get_kk(&self) -> (r: u8)
        requires
            self.wf(),
            fetchable(self@),
        ensures
            r == spec_kk(self@),
    {
        self.ram[self.program_counter as usize + 1]
    }

    /// `00E0`: clear the display.
    fn op_00e0(&mut self)
        requires
            old(self).wf(),
            fetchable(old(self)@),
            old(self)@.waiting_register is None,
        ensures
            final(self).wf(),
            final(self)@ == spec_op_00e0(old(self)@),
    {
        self.video.clear();
        self.inc_program_counter();
    }

    /// `00EE`: return from a call.
    fn op_00ee(&mut self)
        requires
            old(self).wf(),
            fetchable(old(self)@),
            old(self)@.waiting_register is None,
            old(self)@.stack_pointer > 0,
        ensures
            final(self).wf(),
            final(self)@ == spec_op_00ee(old(self)@),
    {
        self.stack_pointer = self.stack_pointer - 1;
        let ret: u16 = self.stack[self.stack_pointer as usize];
        self.program_counter = ret + 2;
    }

    /// `1NNN`: jump.
    fn op_1nnn(&mut self)
        requires
            old(self).wf(),
            fetchable(old(self)@),
            old(self)@.waiting_register is None,
        ensures
            final(self).wf(),
            final(self)@ == spec_op_1nnn(old(self)@, spec_nnn(old(self)@)),
    {
        let nnn: u16 = self.get_opcode() & 0x0FFF;
        self.program_counter = nnn;
    }

    /// `2NNN`: call the subroutine at NNN.
    fn op_2nnn(&mut self)
        requires
            old(self).wf(),
            fetchable(old(self)@),
            old(self)@.waiting_register is None,
            old(self)@.stack_pointer < STACK_DEPTH,
        ensures
            final(self).wf(),
            final(self)@ == spec_op_2nnn(old(self)@, spec_nnn(old(self)@)),
    {
        let nnn: u16 = self.get_opcode() & 0x0FFF;
        self.stack.set(self.stack_pointer as usize, self.program_counter);
        self.stack_pointer = self.stack_pointer + 1;
        self.program_counter = nnn;
    }

    /// `3XKK`: skip when `V[X] == KK`.
    fn op_3xkk(&mut self)
        requires
            old(self).wf(),
            fetchable(old(self)@),
            old(self)@.waiting_register is None,
            spec_x(old(self)@) != 15,
        ensures
            final(self).wf(),
            final(self)@ == spec_op_3xkk(old(self)@, spec_x(old(self)@) as int, spec_kk(old(self)@)),
    {
        let x: u8 = self.get_second_octet();
        let kk: u8 = self.get_kk();
        if self.registers[x as usize] == kk {
            self.inc_program_counter();
        }
        self.inc_program_counter();
    }

    /// `4XKK`: skip when `V[X] != KK`.
    fn op_4xkk(&mut self)
        requires
            old(self).wf(),
            fetchable(old(self)@),
            old(self)@.waiting_register is None,
            spec_x(old(self)@) != 15,
        ensures
            final(self).wf(),
            final(self)@ == spec_op_4xkk(old(self)@, spec_x(old(self)@) as int, spec_kk(old(self)@)),
    {
        let x: u8 = self.get_second_octet();
        let kk: u8 = self.get_kk();
        if self.registers[x as usize] != kk {
            self.inc_program_counter();
        }
        self.inc_program_counter();
    }

    /// `5XY0`: skip when `V[X] == V[Y]`.
    fn op_5xy0(&mut self)
        requires
            old(self).wf(),
            fetchable(old(self)@),
            old(self)@.waiting_register is None,
            spec_x(old(self)@) != 15,
            spec_y(old(self)@) != 15,
        ensures
            final(self).wf(),
            final(self)@ == spec_op_5xy0(
                old(self)@,
                spec_x(old(self)@) as int,
                spec_y(old(self)@) as int,
            ),
    {
        let x: u8 = self.get_second_octet();
        let y: u8 = self.get_third_octet();
        if self.registers[x as usize] == self.registers[y as usize] {
            self.inc_program_counter();
        }
        self.inc_program_counter();
    }

    /// `6XKK`: load the immediate.
    fn op_6xkk(&mut self)
        requires
            old(self).wf(),
            fetchable(old(self)@),
            old(self)@.waiting_register is None,
            spec_x(old(self)@) != 15,
        ensures
            final(self).wf(),
            final(self)@ == spec_op_6xkk(old(self)@, spec_x(old(self)@) as int, spec_kk(old(self)@)),
    {
        let x: u8 = self.get_second_octet();
        let kk: u8 = self.get_kk();
        self.registers.set(x as usize, kk);
        self.inc_program_counter();
    }

    /// `7XKK`: add the immediate with 8-bit wraparound, flags untouched.
    fn op_7xkk(&mut self)
        requires
            old(self).wf(),
            fetchable(old(self)@),
            old(self)@.waiting_register is None,
            spec_x(old(self)@) != 15,
        ensures
            final(self).wf(),
            final(self)@ == spec_op_7xkk(old(self)@, spec_x(old(self)@) as int, spec_kk(old(self)@)),
    {
        let x: u8 = self.get_second_octet();
        let kk: u8 = self.get_kk();
        let vx: u8 = self.registers[x as usize];
        let sum: u16 = vx as u16 + kk as u16;
        self.registers.set(x as usize, (sum % 256) as u8);
        self.inc_program_counter();
    }

    /// `8XY0`: copy `V[Y]` into `V[X]`.
    fn op_8xy0(&mut self)
        requires
            old(self).wf(),
            fetchable(old(self)@),
            old(self)@.waiting_register is None,
            spec_x(old(self)@) != 15,
        ensures
            final(self).wf(),
            final(self)@ == spec_op_8xy0(
                old(self)@,
                spec_x(old(self)@) as int,
                spec_y(old(self)@) as int,
            ),
    {
        let x: u8 = self.get_second_octet();
        let y: u8 = self.get_third_octet();
        let vy: u8 = self.registers[y as usize];
        self.registers.set(x as usize, vy);
    }

    /// `8XY1`: bitwise or.
    fn op_8xy1(&mut self)
        requires
            old(self).wf(),
            fetchable(old(self)@),
            old(self)@.waiting_register is None,
            spec_x(old(self)@) != 15,
        ensures
            final(self).wf(),
            final(self)@ == spec_op_8xy1(
                old(self)@,
                spec_x(old(self)@) as int,
                spec_y(old(self)@) as int,
            ),
    {
        let x: u8 = self.get_second_octet();
        let y: u8 = self.get_third_octet();
        let vx: u8 = self.registers[x as usize];
        let vy: u8 = self.registers[y as usize];
        self.registers.set(x as usize, vx | vy);
    }

    /// `8XY2`: bitwise and.
    fn op_8xy2(&mut self)
        requires
            old(self).wf(),
            fetchable(old(self)@),
            old(self)@.waiting_register is None,
            spec_x(old(self)@) != 15,
        ensures
            final(self).wf(),
            final(self)@ == spec_op_8xy2(
                old(self)@,
                spec_x(old(self)@) as int,
                spec_y(old(self)@) as int,
            ),
    {
        let x: u8 = self.get_second_octet();
        let y: u8 = self.get_third_octet();
        let vx: u8 = self.registers[x as usize];
        let vy: u8 = self.registers[y as usize];
        self.registers.set(x as usize, vx & vy);
    }

    /// `8XY3`: bitwise xor.
    fn op_8xy3(&mut self)
        requires
            old(self).wf(),
            fetchable(old(self)@),
            old(self)@.waiting_register is None,
            spec_x(old(self)@) != 15,
        ensures
            final(self).wf(),
            final(self)@ == spec_op_8xy3(
                old(self)@,
                spec_x(old(self)@) as int,
                spec_y(old(self)@) as int,
            ),
    {
        let x: u8 = self.get_second_octet();
        let y: u8 = self.get_third_octet();
        let vx: u8 = self.registers[x as usize];
        let vy: u8 = self.registers[y as usize];
        self.registers.set(x as usize, vx ^ vy);
    }

    /// `8XY4`: add with the carry recorded in the flag register.
    fn op_8xy4(&mut self)
        requires
            old(self).wf(),
            fetchable(old(self)@),
            old(self)@.waiting_register is None,
            spec_x(old(self)@) != 15,
        ensures
            final(self).wf(),
            final(self)@ == spec_op_8xy4(
                old(self)@,
                spec_x(old(self)@) as int,
                spec_y(old(self)@) as int,
            ),
    {
        let x: u8 = self.get_second_octet();
        let y: u8 = self.get_third_octet();
        let vx: u8 = self.registers[x as usize];
        let vy: u8 = self.registers[y as usize];
        let sum: u16 = vx as u16 + vy as u16;
        if sum > 0xFF {
            self.registers.set(15, 1);
        } else {
            self.registers.set(15, 0);
        }
        self.registers.set(x as usize, (sum % 256) as u8);
    }

    /// `8XY5`: subtract with the no-borrow condition recorded in the flag
    /// register.
    fn op_8xy5(&mut self)
        requires
            old(self).wf(),
            fetchable(old(self)@),
            old(self)@.waiting_register is None,
            spec_x(old(self)@) != 15,
        ensures
            final(self).wf(),
            final(self)@ == spec_op_8xy5(
                old(self)@,
                spec_x(old(self)@) as int,
                spec_y(old(self)@) as int,
            ),
    {
        let x: u8 = self.get_second_octet();
        let y: u8 = self.get_third_octet();
        let vx: u8 = self.registers[x as usize];
        let vy: u8 = self.registers[y as usize];
        if vx >= vy {
            self.registers.set(15, 1);
            self.registers.set(x as usize, vx - vy);
        } else {
            self.registers.set(15, 0);
            self.registers.set(x as usize, ((vx as u16 + 256) - vy as u16) as u8);
        }
    }

    /// `8XY6`: shift right; the displaced bit 0 goes to the flag register.
    fn op_8xy6(&mut self)
        requires
            old(self).wf(),
            fetchable(old(self)@),
            old(self)@.waiting_register is None,
            spec_x(old(self)@) != 15,
        ensures
            final(self).wf(),
            final(self)@ == spec_op_8xy6(old(self)@, spec_x(old(self)@) as int),
    {
        let x: u8 = self.get_second_octet();
        let vx: u8 = self.registers[x as usize];
        self.registers.set(15, vx & 1);
        self.registers.set(x as usize, vx >> 1);
    }

    /// `8XY7`: reversed subtract with the no-borrow condition recorded in
    /// the flag register.
    fn op_8xy7(&mut self)
        requires
            old(self).wf(),
            fetchable(old(self)@),
            old(self)@.waiting_register is None,
            spec_x(old(self)@) != 15,
        ensures
            final(self).wf(),
            final(self)@ == spec_op_8xy7(
                old(self)@,
                spec_x(old(self)@) as int,
                spec_y(old(self)@) as int,
            ),
    {
        let x: u8 = self.get_second_octet();
        let y: u8 = self.get_third_octet();
        let vx: u8 = self.registers[x as usize];
        let vy: u8 = self.registers[y as usize];
        if vy >= vx {
            self.registers.set(15, 1);
            self.registers.set(x as usize, vy - vx);
        } else {
            self.registers.set(15, 0);
            self.registers.set(x as usize, ((vy as u16 + 256) - vx as u16) as u8);
        }
    }

    /// `8XYE`: shift left; the displaced bit 7, normalized to 0/1, goes to
    /// the flag register.
    fn op_8xye(&mut self)
        requires
            old(self).wf(),
            fetchable(old(self)@),
            old(self)@.waiting_register is None,
            spec_x(old(self)@) != 15,
        ensures
            final(self).wf(),
            final(self)@ == spec_op_8xye(old(self)@, spec_x(old(self)@) as int),
    {
        let x: u8 = self.get_second_octet();
        let vx: u8 = self.registers[x as usize];
        self.registers.set(15, (vx >> 7) & 1);
        self.registers.set(x as usize, ((vx as u16 * 2) % 256) as u8);
    }

    /// `9XY0`: skip when `V[X] != V[Y]`.
    fn op_9xy0(&mut self)
        requires
            old(self).wf(),
            fetchable(old(self)@),
            old(self)@.waiting_register is None,
            spec_x(old(self)@) != 15,
            spec_y(old(self)@) != 15,
        ensures
            final(self).wf(),
            final(self)@ == spec_op_9xy0(
                old(self)@,
                spec_x(old(self)@) as int,
                spec_y(old(self)@) as int,
            ),
    {
        let x: u8 = self.get_second_octet();
        let y: u8 = self.get_third_octet();
        if self.registers[x as usize] != self.registers[y as usize] {
            self.inc_program_counter();
        }
        self.inc_program_counter();
    }

    /// `ANNN`: point the index register at NNN.
    fn op_annn(&mut self)
        requires
            old(self).wf(),
            fetchable(old(self)@),
            old(self)@.waiting_register is None,
        ensures
            final(self).wf(),
            final(self)@ == spec_op_annn(old(self)@, spec_nnn(old(self)@)),
    {
        let nnn: u16 = self.get_opcode() & 0x0FFF;
        self.index_register = nnn;
        self.inc_program_counter();
    }

    /// `BNNN`: jump to `V[0] + NNN`.
    fn op_bnnn(&mut self)
        requires
            old(self).wf(),
            fetchable(old(self)@),
            old(self)@.waiting_register is None,
        ensures
            final(self).wf(),
            final(self)@ == spec_op_bnnn(old(self)@, spec_nnn(old(self)@)),
    {
        let op: u16 = self.get_opcode();
        let nnn: u16 = op & 0x0FFF;
        assert(op & 0x0FFF <= 0x0FFF) by (bit_vector);
        self.program_counter = self.registers[0] as u16 + nnn;
    }

    /// `CXKK`: mask the host-supplied random byte with the immediate.
    fn op_cxkk(&mut self, rand: u8)
        requires
            old(self).wf(),
            fetchable(old(self)@),
            old(self)@.waiting_register is None,
            spec_x(old(self)@) != 15,
        ensures
            final(self).wf(),
            final(self)@ == spec_op_cxkk(
                old(self)@,
                spec_x(old(self)@) as int,
                spec_kk(old(self)@),
                rand,
            ),
    {
        let x: u8 = self.get_second_octet();
        let kk: u8 = self.get_kk();
        self.registers.set(x as usize, rand & kk);
        self.inc_program_counter();
    }

    /// `DXYN`: draw a sprite and record the collision in the flag register.
    #[verifier::loop_isolation(false)]
    fn op_dxyn(&mut self)
        requires
            old(self).wf(),
            fetchable(old(self)@),
            old(self)@.waiting_register is None,
            spec_x(old(self)@) != 15,
            spec_y(old(self)@) != 15,
            old(self)@.index_register + spec_n(old(self)@) <= MEMORY_SIZE,
        ensures
            final(self).wf(),
            final(self)@ == spec_op_dxyn(
                old(self)@,
                spec_x(old(self)@) as int,
                spec_y(old(self)@) as int,
                spec_n(old(self)@) as int,
            ),
    {
        let x: u8 = self.get_second_octet();
        let y: u8 = self.get_third_octet();
        let n: u8 = self.get_fourth_octet();
        let sx: u8 = self.registers[x as usize] % 64;
        let sy: u8 = self.registers[y as usize] % 32;
        let base: usize = self.index_register as usize;
        let mut sprite: Vec<u8> = Vec::new();
        let mut i: usize = 0;
        while i < n as usize
            invariant
                i <= n as usize,
                sprite@.len() == i,
                forall|j: int| 0 <= j < i ==> sprite@[j] == self.ram@[base + j],
            decreases n as usize - i,
        {
            sprite.push(self.ram[base + i]);
            i = i + 1;
        }
        proof {
            assert(sprite@ =~= old(self)@.ram.subrange(
                old(self)@.index_register as int,
                old(self)@.index_register + spec_n(old(self)@),
            ));
        }
        let collided: bool = self.video.draw_sprite(sx, sy, &sprite);
        if collided {
            self.registers.set(15, 1);
        } else {
            self.registers.set(15, 0);
        }
        self.inc_program_counter();
    }

    /// `EX9E`: skip when the key named by `V[X]` is pressed.
    fn op_ex9e(&mut self)
        requires
            old(self).wf(),
            fetchable(old(self)@),
            old(self)@.waiting_register is None,
            spec_x(old(self)@) != 15,
        ensures
            final(self).wf(),
            final(self)@ == spec_op_ex9e(old(self)@, spec_x(old(self)@) as int),
    {
        let x: u8 = self.get_second_octet();
        let vx: u8 = self.registers[x as usize];
        if (vx as usize) < 16 {
            if self.keypad[vx as usize] {
                self.inc_program_counter();
            }
        }
        self.inc_program_counter();
    }

    /// `EXA1`: skip when the key named by `V[X]` is not pressed.
    fn op_exa1(&mut self)
        requires
            old(self).wf(),
            fetchable(old(self)@),
            old(self)@.waiting_register is None,
            spec_x(old(self)@) != 15,
        ensures
            final(self).wf(),
            final(self)@ == spec_op_exa1(old(self)@, spec_x(old(self)@) as int),
    {
        let x: u8 = self.get_second_octet();
        let vx: u8 = self.registers[x as usize];
        let mut down: bool = false;
        if (vx as usize) < 16 {
            if self.keypad[vx as usize] {
                down = true;
            }
        }
        if !down {
            self.inc_program_counter();
        }
        self.inc_program_counter();
    }

    /// `FX07`: read the delay timer into `V[X]`.
    fn op_fx07(&mut self)
        requires
            old(self).wf(),
            fetchable(old(self)@),
            old(self)@.waiting_register is None,
            spec_x(old(self)@) != 15,
        ensures
            final(self).wf(),
            final(self)@ == spec_op_fx07(old(self)@, spec_x(old(self)@) as int),
    {
        let x: u8 = self.get_second_octet();
        let d: u8 = self.delay_register;
        self.registers.set(x as usize, d);
    }

    /// `FX0A`: start waiting for a key press, to be captured by a later step.
    fn op_fx0a(&mut self)
        requires
            old(self).wf(),
            fetchable(old(self)@),
            old(self)@.waiting_register is None,
            spec_x(old(self)@) != 15,
        ensures
            final(self).wf(),
            final(self)@ == spec_op_fx0a(old(self)@, spec_x(old(self)@) as int),
    {
        let x: u8 = self.get_second_octet();
        self.waiting_register = Some(x);
    }

    /// `FX15`: set the delay timer from `V[X]`.
    fn op_fx15(&mut self)
        requires
            old(self).wf(),
            fetchable(old(self)@),
            old(self)@.waiting_register is None,
            spec_x(old(self)@) != 15,
        ensures
            final(self).wf(),
            final(self)@ == spec_op_fx15(old(self)@, spec_x(old(self)@) as int),
    {
        let x: u8 = self.get_second_octet();
        self.delay_register = self.registers[x as usize];
    }

    /// `FX18`: set the sound timer from `V[X]`.
    fn op_fx18(&mut self)
        requires
            old(self).wf(),
            fetchable(old(self)@),
            old(self)@.waiting_register is None,
            spec_x(old(self)@) != 15,
        ensures
            final(self).wf(),
            final(self)@ == spec_op_fx18(old(self)@, spec_x(old(self)@) as int),
    {
        let x: u8 = self.get_second_octet();
        self.sound_register = self.registers[x as usize];
    }

    /// `FX1E`: add `V[X]` to the index register in 16-bit arithmetic.
    fn op_fx1e(&mut self)
        requires
            old(self).wf(),
            fetchable(old(self)@),
            old(self)@.waiting_register is None,
            spec_x(old(self)@) != 15,
        ensures
            final(self).wf(),
            final(self)@ == spec_op_fx1e(old(self)@, spec_x(old(self)@) as int),
    {
        let x: u8 = self.get_second_octet();
        let s: u32 = self.index_register as u32 + self.registers[x as usize] as u32;
        self.index_register = (s % 0x10000) as u16;
    }

    /// `FX29`: point the index register at the font glyph for `V[X]`.
    fn op_fx29(&mut self)
        requires
            old(self).wf(),
            fetchable(old(self)@),
            old(self)@.waiting_register is None,
            spec_x(old(self)@) != 15,
        ensures
            final(self).wf(),
            final(self)@ == spec_op_fx29(old(self)@, spec_x(old(self)@) as int),
    {
        let x: u8 = self.get_second_octet();
        let vx: u8 = self.registers[x as usize];
        self.index_register = FONT_BASE + (vx as u16) * 5;
    }

    /// `FX33`: store the decimal digits of `V[X]` at `Memory[I .. I+3)`.
    fn op_fx33(&mut self)
        requires
            old(self).wf(),
            fetchable(old(self)@),
            old(self)@.waiting_register is None,
            spec_x(old(self)@) != 15,
            old(self)@.index_register + 3 <= MEMORY_SIZE,
        ensures
            final(self).wf(),
            final(self)@ == spec_op_fx33(old(self)@, spec_x(old(self)@) as int),
    {
        let x: u8 = self.get_second_octet();
        let vx: u8 = self.registers[x as usize];
        let base: usize = self.index_register as usize;
        self.ram.set(base, vx / 100);
        self.ram.set(base + 1, (vx / 10) % 10);
        self.ram.set(base + 2, vx % 10);
    }

    /// `FX55`: store `V[0 ..= X]` into memory at the index register.
    #[verifier::loop_isolation(false)]
    fn op_fx55(&mut self)
        requires
            old(self).wf(),
            fetchable(old(self)@),
            old(self)@.waiting_register is None,
            spec_x(old(self)@) != 15,
            old(self)@.index_register + spec_x(old(self)@) + 1 <= MEMORY_SIZE,
        ensures
            final(self).wf(),
            final(self)@ == spec_op_fx55(old(self)@, spec_x(old(self)@) as int),
    {
        let x: u8 = self.get_second_octet();
        let base: usize = self.index_register as usize;
        let ghost ram0 = self.ram@;
        let mut i: usize = 0;
        while i < x as usize + 1
            invariant
                i <= x as usize + 1,
                self.ram@.len() == MEMORY_SIZE,
                forall|ad: int|
                    0 <= ad < MEMORY_SIZE ==> self.ram@[ad] == (if base <= ad < base + i {
                        old(self)@.registers[ad - base]
                    } else {
                        ram0[ad]
                    }),
                self.registers == old(self).registers,
                self.index_register == old(self).index_register,
                self.delay_register == old(self).delay_register,
                self.sound_register == old(self).sound_register,
                self.program_counter == old(self).program_counter,
                self.stack == old(self).stack,
                self.stack_pointer == old(self).stack_pointer,
                self.keypad == old(self).keypad,
                self.waiting_register == old(self).waiting_register,
                self.video == old(self).video,
            decreases x as usize + 1 - i,
        {
            let b: u8 = self.registers[i];
            self.ram.set(base + i, b);
            i = i + 1;
        }
    }

    /// `FX65`: load `V[0 ..= X]` from memory at the index register.
    #[verifier::loop_isolation(false)]
    fn op_fx65(&mut self)
        requires
            old(self).wf(),
            fetchable(old(self)@),
            old(self)@.waiting_register is None,
            spec_x(old(self)@) != 15,
            old(self)@.index_register + spec_x(old(self)@) + 1 <= MEMORY_SIZE,
        ensures
            final(self).wf(),
            final(self)@ == spec_op_fx65(old(self)@, spec_x(old(self)@) as int),
    {
        let x: u8 = self.get_second_octet();
        let base: usize = self.index_register as usize;
        let ghost regs0 = self.registers@;
        let mut i: usize = 0;
        while i < x as usize + 1
            invariant
                i <= x as usize + 1,
                self.registers@.len() == 16,
                forall|r: int|
                    0 <= r < 16 ==> self.registers@[r] == (if 0 <= r < i {
                        old(self)@.ram[base + r]
                    } else {
                        regs0[r]
                    }),
                self.ram == old(self).ram,
                self.index_register == old(self).index_register,
                self.delay_register == old(self).delay_register,
                self.sound_register == old(self).sound_register,
                self.program_counter == old(self).program_counter,
                self.stack == old(self).stack,
                self.stack_pointer == old(self).stack_pointer,
                self.keypad == old(self).keypad,
                self.waiting_register == old(self).waiting_register,
                self.video == old(self).video,
            decreases x as usize + 1 - i,
        {
            let b: u8 = self.ram[base + i];
            self.registers.set(i, b);
            i = i + 1;
        }
    }

    /// One step taken while waiting for a key: scan the keypad; on the first
    /// pressed key, write its code to the target register, leave the waiting
    /// state, and move past the wait instruction.
    #[verifier::loop_isolation(false)]
    fn capture_waiting_key(&mut self)
        requires
            old(self).wf(),
            old(self)@.waiting_register is Some,
        ensures
            final(self).wf(),
            match old(self)@.waiting_register {
                Some(x) => final(self)@ == spec_key_capture(old(self)@, x as int),
                None => true,
            },
    {
        let reg: u8 = match self.waiting_register {
            Some(r) => r,
            None => 0,
        };
        let ghost keys = old(self)@.keypad;
        let mut k: usize = 0;
        while k < 16
            invariant
                k <= 16,
                self@ == old(self)@,
                first_pressed(keys, 0) == first_pressed(keys, k as int),
            decreases 16 - k,
        {
            if self.keypad[k] {
                assert(first_pressed(keys, k as int) == Option::Some(k as u8));
                self.registers.set(reg as usize, k as u8);
                self.waiting_register = None;
                self.inc_program_counter();
                return ;
            }
            k = k + 1;
        }
        assert(first_pressed(keys, 16) is None);
    }

    /// One 60 Hz timer tick: decrement both timers, floored at 0.  Intended
    /// to be driven by the host at a steady rate, decoupled from the
    /// instruction stream.
    pub fn tick_timers(&mut self)
        requires
            old(self).wf(),
        ensures
            final(self).wf(),
            final(self)@ == spec_tick(old(self)@),
    {
        if self.delay_register > 0 {
            self.delay_register = self.delay_register - 1;
        }
        if self.sound_register > 0 {
            self.sound_register = self.sound_register - 1;
        }
    }

    /// Host input event: the key went down.
    pub fn key_pressed(&mut self, key: u8)
        requires
            old(self).wf(),
            key < 16,
        ensures
            final(self).wf(),
            final(self)@ == (Chip8Abs {
                keypad: old(self)@.keypad.update(key as int, true),
                ..old(self)@
            }),
    {
        self.keypad.set(key as usize, true);
    }

    /// Host input event: the key went up.
    pub fn key_released(&mut self, key: u8)
        requires
            old(self).wf(),
            key < 16,
        ensures
            final(self).wf(),
            final(self)@ == (Chip8Abs {
                keypad: old(self)@.keypad.update(key as int, false),
                ..old(self)@
            }),
    {
        self.keypad.set(key as usize, false);
    }

    /// Dispatch of the `0x0` opcode family on the low byte.
    fn table_0(&mut self) -> (r: Result<(), Chip8Error>)
        requires
            old(self).wf(),
            fetchable(old(self)@),
            old(self)@.waiting_register is None,
        ensures
            final(self).wf(),
            (final(self)@, r) == spec_table_0(old(self)@),
    {
        let kk: u8 = self.get_kk();
        if kk == 0xE0 {
            self.op_00e0();
            Ok(())
        } else if kk == 0xEE {
            if self.stack_pointer == 0 {
                Err(Chip8Error::StackUnderflow)
            } else {
                self.op_00ee();
                Ok(())
            }
        } else {
            self.inc_program_counter();
            Err(Chip8Error::UnknownOpcode)
        }
    }

    /// Dispatch of the `0x8` opcode family on the fourth nibble.
    fn table_8(&mut self) -> (r: Result<(), Chip8Error>)
        requires
            old(self).wf(),
            fetchable(old(self)@),
            old(self)@.waiting_register is None,
        ensures
            final(self).wf(),
            (final(self)@, r) == spec_table_8(old(self)@),
    {
        let x: u8 = self.get_second_octet();
        let y: u8 = self.get_third_octet();
        if x == 15 || y == 15 {
            self.inc_program_counter();
            return Err(Chip8Error::InvalidRegisterOperand);
        }
        let n: u8 = self.get_fourth_octet();
        match n {
            0x0 => self.op_8xy0(),
            0x1 => self.op_8xy1(),
            0x2 => self.op_8xy2(),
            0x3 => self.op_8xy3(),
            0x4 => self.op_8xy4(),
            0x5 => self.op_8xy5(),
            0x6 => self.op_8xy6(),
            0x7 => self.op_8xy7(),
            0xE => self.op_8xye(),
            _ => {
                self.inc_program_counter();
                return Err(Chip8Error::UnknownOpcode);
            },
        }
        self.inc_program_counter();
        Ok(())
    }

    /// Dispatch of the `0xE` opcode family on the low byte.
    fn table_e(&mut self) -> (r: Result<(), Chip8Error>)
        requires
            old(self).wf(),
            fetchable(old(self)@),
            old(self)@.waiting_register is None,
        ensures
            final(self).wf(),
            (final(self)@, r) == spec_table_e(old(self)@),
    {
        let kk: u8 = self.get_kk();
        if kk == 0x9E {
            let x: u8 = self.get_second_octet();
            if x == 15 {
                self.inc_program_counter();
                Err(Chip8Error::InvalidRegisterOperand)
            } else {
                self.op_ex9e();
                Ok(())
            }
        } else if kk == 0xA1 {
            let x: u8 = self.get_second_octet();
            if x == 15 {
                self.inc_program_counter();
                Err(Chip8Error::InvalidRegisterOperand)
            } else {
                self.op_exa1();
                Ok(())
            }
        } else {
            self.inc_program_counter();
            Err(Chip8Error::UnknownOpcode)
        }
    }

    /// Dispatch of the `0xF` opcode family on the low byte.
    fn table_f(&mut self) -> (r: Result<(), Chip8Error>)
        requires
            old(self).wf(),
            fetchable(old(self)@),
            old(self)@.waiting_register is None,
        ensures
            final(self).wf(),
            (final(self)@, r) == spec_table_f(old(self)@),
    {
        let x: u8 = self.get_second_octet();
        if x == 15 {
            self.inc_program_counter();
            return Err(Chip8Error::InvalidRegisterOperand);
        }
        let kk: u8 = self.get_kk();
        if kk == 0x07 {
            self.op_fx07();
            self.inc_program_counter();
            Ok(())
        } else if kk == 0x0A {
            self.op_fx0a();
            Ok(())
        } else if kk == 0x15 {
            self.op_fx15();
            self.inc_program_counter();
            Ok(())
        } else if kk == 0x18 {
            self.op_fx18();
            self.inc_program_counter();
            Ok(())
        } else if kk == 0x1E {
            self.op_fx1e();
            self.inc_program_counter();
            Ok(())
        } else if kk == 0x29 {
            self.op_fx29();
            self.inc_program_counter();
            Ok(())
        } else if kk == 0x33 {
            if self.index_register as usize + 3 > MEMORY_SIZE {
                Err(Chip8Error::MemoryOutOfRange)
            } else {
                self.op_fx33();
                self.inc_program_counter();
                Ok(())
            }
        } else if kk == 0x55 {
            if self.index_register as usize + x as usize + 1 > MEMORY_SIZE {
                Err(Chip8Error::MemoryOutOfRange)
            } else {
                self.op_fx55();
                self.inc_program_counter();
                Ok(())
            }
        } else if kk == 0x65 {
            if self.index_register as usize + x as usize + 1 > MEMORY_SIZE {
                Err(Chip8Error::MemoryOutOfRange)
            } else {
                self.op_fx65();
                self.inc_program_counter();
                Ok(())
            }
        } else {
            self.inc_program_counter();
            Err(Chip8Error::UnknownOpcode)
        }
    }

    /// One interpreter step.
    ///
    /// While waiting for a key the step only polls the keypad (see
    /// [`spec_key_capture`]).  Otherwise the instruction at the program
    /// counter is fetched, dispatched and executed as [`spec_step`] states,
    /// and any irregular outcome is reported in the result; the state stays
    /// well formed either way.  `random_byte` is consumed only by a `CXKK`
    /// instruction; the host supplies it from whatever randomness source it
    /// trusts.
    pub fn call_operation(&mut self, random_byte: u8) -> (r: Result<(), Chip8Error>)
        requires
            old(self).wf(),
        ensures
            final(self).wf(),
            (final(self)@, r) == spec_step(old(self)@, random_byte),
    {
        if self.waiting_register.is_some() {
            self.capture_waiting_key();
            return Ok(());
        }
        if self.program_counter as usize + 1 >= MEMORY_SIZE {
            return Err(Chip8Error::MemoryOutOfRange);
        }
        let hi: u8 = self.get_first_octet();
        match hi {
            0x0 => self.table_0(),
            0x1 => {
                self.op_1nnn();
                Ok(())
            },
            0x2 => {
                if self.stack_pointer as usize == STACK_DEPTH {
                    Err(Chip8Error::StackOverflow)
                } else {
                    self.op_2nnn();
                    Ok(())
                }
            },
            0x3 => {
                let x: u8 = self.get_second_octet();
                if x == 15 {
                    self.inc_program_counter();
                    Err(Chip8Error::InvalidRegisterOperand)
                } else {
                    self.op_3xkk();
                    Ok(())
                }
            },
            0x4 => {
                let x: u8 = self.get_second_octet();
                if x == 15 {
                    self.inc_program_counter();
                    Err(Chip8Error::InvalidRegisterOperand)
                } else {
                    self.op_4xkk();
                    Ok(())
                }
            },
            0x5 => {
                let x: u8 = self.get_second_octet();
                let y: u8 = self.get_third_octet();
                if x == 15 || y == 15 {
                    self.inc_program_counter();
                    Err(Chip8Error::InvalidRegisterOperand)
                } else {
                    self.op_5xy0();
                    Ok(())
                }
            },
            0x6 => {
                let x: u8 = self.get_second_octet();
                if x == 15 {
                    self.inc_program_counter();
                    Err(Chip8Error::InvalidRegisterOperand)
                } else {
                    self.op_6xkk();
                    Ok(())
                }
            },
            0x7 => {
                let x: u8 = self.get_second_octet();
                if x == 15 {
                    self.inc_program_counter();
                    Err(Chip8Error::InvalidRegisterOperand)
                } else {
                    self.op_7xkk();
                    Ok(())
                }
            },
            0x8 => self.table_8(),
            0x9 => {
                let x: u8 = self.get_second_octet();
                let y: u8 = self.get_third_octet();
                if x == 15 || y == 15 {
                    self.inc_program_counter();
                    Err(Chip8Error::InvalidRegisterOperand)
                } else {
                    self.op_9xy0();
                    Ok(())
                }
            },
            0xA => {
                self.op_annn();
                Ok(())
            },
            0xB => {
                self.op_bnnn();
                Ok(())
            },
            0xC => {
                let x: u8 = self.get_second_octet();
                if x == 15 {
                    self.inc_program_counter();
                    Err(Chip8Error::InvalidRegisterOperand)
                } else {
                    self.op_cxkk(random_byte);
                    Ok(())
                }
            },
            0xD => {
                let x: u8 = self.get_second_octet();
                let y: u8 = self.get_third_octet();
                if x == 15 || y == 15 {
                    self.inc_program_counter();
                    Err(Chip8Error::InvalidRegisterOperand)
                } else {
                    let n: u8 = self.get_fourth_octet();
                    if self.index_register as usize + n as usize > MEMORY_SIZE {
                        Err(Chip8Error::MemoryOutOfRange)
                    } else {
                        self.op_dxyn();
                        Ok(())
                    }
                }
            },
            0xE => self.table_e(),
            _ => self.table_f(),
        }
    }

    /// Read a general register.
    pub fn get_register(&self, x: u8) -> (r: u8)
        requires
            self.wf(),
            x < 16,
        ensures
            r == self@.registers[x as int],
    {
        self.registers[x as usize]
    }

    /// Read the program counter.
    pub fn get_program_counter(&self) -> (r: u16)
        ensures
            r == self@.program_counter,
    {
        self.program_counter
    }

    /// Read the index register.
    pub fn get_index_register(&self) -> (r: u16)
        ensures
            r == self@.index_register,
    {
        self.index_register
    }

    /// Read the call-stack depth.
    pub fn get_stack_pointer(&self) -> (r: u8)
        ensures
            r == self@.stack_pointer,
    {
        self.stack_pointer
    }

    /// Read the delay timer.
    pub fn get_delay_timer(&self) -> (r: u8)
        ensures
            r == self@.delay_register,
    {
        self.delay_register
    }

    /// Read the sound timer.
    pub fn get_sound_timer(&self) -> (r: u8)
        ensures
            r == self@.sound_register,
    {
        self.sound_register
    }

    /// Whether the interpreter is blocked waiting for a key press.
    pub fn is_waiting_for_key(&self) -> (b: bool)
        ensures
            b == (self@.waiting_register is Some),
    {
        self.waiting_register.is_some()
    }

    /// Advance the program counter past one instruction.
    fn inc_program_counter(&mut self)
        requires
            old(self)@.program_counter + 2 < 0x10000,
        ensures
            final(self)@ == spec_advanced(old(self)@),
    {
        self.program_counter = self.program_counter + 2;
    }
}

/// A vector of `n` zero bytes.
fn zero_bytes(n: usize) -> (v: Vec<u8>)
    ensures
        v@ =~= Seq::new(n as nat, |i: int| 0u8),
{
    let mut v: Vec<u8> = Vec::new();
    let mut i: usize = 0;
    while i < n
        invariant
            i <= n,
            v@.len() == i,
            forall|j: int| 0 <= j < i ==> v@[j] == 0u8,
        decreases n - i,
    {
        v.push(0);
        i = i + 1;
    }
    v
}

/// A vector of `n` zero 16-bit words.
fn zero_words(n: usize) -> (v: Vec<u16>)
    ensures
        v@ =~= Seq::new(n as nat, |i: int| 0u16),
{
    let mut v: Vec<u16> = Vec::new();
    let mut i: usize = 0;
    while i < n
        invariant
            i <= n,
            v@.len() == i,
            forall|j: int| 0 <= j < i ==> v@[j] == 0u16,
        decreases n - i,
    {
        v.push(0);
        i = i + 1;
    }
    v
}

/// A vector of 16 released key states.
fn up_keys() -> (v: Vec<bool>)
    ensures
        v@ =~= Seq::new(16, |i: int| false),
{
    let mut v: Vec<bool> = Vec::new();
    let mut i: usize = 0;
    while i < 16
        invariant
            i <= 16,
            v@.len() == i,
            forall|j: int| 0 <= j < i ==> !v@[j],
        decreases 16 - i,
    {
        v.push(false);
        i = i + 1;
    }
    v
}

} // verus!
