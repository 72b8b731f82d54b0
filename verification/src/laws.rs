//! Laws of the instruction set, stated over the abstract transitions and
//! proved once and for all.  The draw-XOR idempotence law lives beside the
//! display, in [`crate::video::lemma_draw_xor_idempotent`].

use vstd::prelude::*;

use crate::chip8::fetchable;
use crate::chip8::spec_op_00ee;
use crate::chip8::spec_op_2nnn;
use crate::chip8::spec_op_6xkk;
use crate::chip8::spec_op_7xkk;
use crate::chip8::spec_op_fx55;
use crate::chip8::spec_op_fx65;
use crate::chip8::spec_tick;
use crate::chip8::Chip8Abs;
use crate::MEMORY_SIZE;
use crate::STACK_DEPTH;

verus! {

/// Executing `6XKK` yields KK when `V[X]` is read back; executing it twice
/// with different immediates retains only the last one, for every general
/// register X (X != 0xF) and every pair of immediates.
pub proof fn lemma_load_immediate_retains_last(a: Chip8Abs, x: int, kk1: u8, kk2: u8)
    requires
        a.wf(),
        0 <= x < 15,
    ensures
        spec_op_6xkk(a, x, kk1).registers[x] == kk1,
        spec_op_6xkk(spec_op_6xkk(a, x, kk1), x, kk2).registers == a.registers.update(x, kk2),
{
    assert(a.registers.update(x, kk1).update(x, kk2) =~= a.registers.update(x, kk2));
}

/// `7XKK` adds modulo 256 and, unlike `8XY4`, leaves the flag register
/// untouched.
pub proof fn lemma_add_immediate_wraps(a: Chip8Abs, x: int, kk: u8)
    requires
        a.wf(),
        0 <= x < 15,
    ensures
        spec_op_7xkk(a, x, kk).registers[x] == (a.registers[x] + kk) % 256,
        spec_op_7xkk(a, x, kk).registers[15] == a.registers[15],
{
}

/// `FX55` then `FX65` round-trip: store `V[0..=X]` at `I`, overwrite the
/// registers however (`mid` is any state with the stored memory and the same
/// `I`), load back with `FX65`: the original `V[0..=X]` values return
/// exactly, inclusive of index X.
pub proof fn lemma_store_load_round_trip(a: Chip8Abs, mid: Chip8Abs, x: int)
    requires
        a.wf(),
        mid.wf(),
        0 <= x < 15,
        a.index_register + x + 1 <= MEMORY_SIZE,
        mid.ram == spec_op_fx55(a, x).ram,
        mid.index_register == a.index_register,
    ensures
        forall|r: int| 0 <= r <= x ==> spec_op_fx65(mid, x).registers[r] == a.registers[r],
{
}

/// The timers are floored at 0: once a timer reaches 0, further ticks leave
/// it there; it never wraps around.
pub proof fn lemma_timer_floor(a: Chip8Abs)
    ensures
        a.delay_register == 0 ==> spec_tick(a).delay_register == 0,
        a.sound_register == 0 ==> spec_tick(a).sound_register == 0,
        spec_tick(a).delay_register <= a.delay_register,
        spec_tick(a).sound_register <= a.sound_register,
{
}

/// Call/return round-trip: after `2NNN`, a later `00EE` from any state with
/// the call's stack and depth (`mid`) resumes at the instruction after the
/// `2NNN`, with the stack depth restored to its pre-call value.
pub proof fn lemma_call_return_round_trip(a: Chip8Abs, mid: Chip8Abs, nnn: u16)
    requires
        a.wf(),
        fetchable(a),
        a.stack_pointer < STACK_DEPTH,
        mid.stack == spec_op_2nnn(a, nnn).stack,
        mid.stack_pointer == spec_op_2nnn(a, nnn).stack_pointer,
    ensures
        spec_op_00ee(mid).program_counter == a.program_counter + 2,
        spec_op_00ee(mid).stack_pointer == a.stack_pointer,
{
}

} // verus!
