//! What holds of every state of the machine, proved from the definitions
//! of the instructions and of the cycle.

use vstd::prelude::*;
use crate::cpu::PcInstructions;
use crate::error::CpuError;
use crate::machine::{
    address_of, digit0, digit1, digit2, digit3, execute, fault, first_pressed, first_pressed_from,
    opcode_at, sprite_rows, step, Machine, FLAG, MEMORY_SIZE, OPCODE_SIZE, STACK_SIZE,
};
use crate::sprite::{
    flips, hits, lands_lit, lemma_collides_where_lit, lemma_draw_twice_restores, lemma_flips_where_hit,
    lemma_second_draw_collides, newly_lit,
};

verus! {

/// 8xy4 leaves in Vx the sum of Vx and Vy modulo 256, and in VF 1 if the
/// sum is over 255 and 0 if it is not. Where Vx is VF itself, the flag is
/// what stays. No other register changes.
pub proof fn lemma_add_wraps_and_carries(m: Machine, opcode: u16, keys: Seq<bool>, random: u8)
    requires
        m.wf(),
        digit0(opcode) == 0x8,
        digit3(opcode) == 0x4,
    ensures
        ({
            let x = digit1(opcode) as int;
            let y = digit2(opcode) as int;
            let sum = m.v[x] + m.v[y];
            let after = execute(m, opcode, keys, random).0;
            &&& after == m.add_registers(x, y)
            &&& sum > 255 ==> after.v[FLAG as int] == 1
            &&& sum <= 255 ==> after.v[FLAG as int] == 0
            &&& x != FLAG ==> after.v[x] == sum % 256
            &&& forall|r: int| 0 <= r < 16 && r != x && r != FLAG ==> after.v[r] == m.v[r]
        }),
{
}

/// 8xy5 leaves in Vx the difference Vx - Vy modulo 256, and in VF 1 if Vx
/// was greater than Vy and 0 if it was not; 8xy7 does the same with the
/// operands exchanged. The flag goes by the values that the registers had
/// before the instruction, also where Vx or Vy is VF, and where x and y
/// are the same register the flag is 0 and the difference is 0.
pub proof fn lemma_subtract_wraps_and_flags(m: Machine, opcode: u16, keys: Seq<bool>, random: u8)
    requires
        m.wf(),
        digit0(opcode) == 0x8,
        digit3(opcode) == 0x5 || digit3(opcode) == 0x7,
    ensures
        ({
            let x = digit1(opcode) as int;
            let y = digit2(opcode) as int;
            let minuend = if digit3(opcode) == 0x5 {
                m.v[x]
            } else {
                m.v[y]
            };
            let subtrahend = if digit3(opcode) == 0x5 {
                m.v[y]
            } else {
                m.v[x]
            };
            let after = execute(m, opcode, keys, random).0;
            &&& minuend > subtrahend ==> after.v[FLAG as int] == 1
            &&& minuend <= subtrahend ==> after.v[FLAG as int] == 0
            &&& x != FLAG ==> after.v[x] == (minuend - subtrahend) % 256
            &&& x == y ==> after.v[FLAG as int] == 0
            &&& x == y && x != FLAG ==> after.v[x] == 0
            &&& forall|r: int| 0 <= r < 16 && r != x && r != FLAG ==> after.v[r] == m.v[r]
        }),
{
}

/// 8xy6 leaves in VF the least significant bit that Vx had before the
/// shift, and 8xyE the most significant one, also where Vx is VF itself;
/// any other Vx is left shifted by one place.
pub proof fn lemma_shift_keeps_the_bit_shifted_out(
    m: Machine,
    opcode: u16,
    keys: Seq<bool>,
    random: u8,
)
    requires
        m.wf(),
        digit0(opcode) == 0x8,
        digit3(opcode) == 0x6 || digit3(opcode) == 0xE,
    ensures
        ({
            let x = digit1(opcode) as int;
            let before = m.v[x];
            let after = execute(m, opcode, keys, random).0;
            &&& digit3(opcode) == 0x6 ==> after.v[FLAG as int] == before & 1
            &&& digit3(opcode) == 0x6 && x != FLAG ==> after.v[x] == before >> 1
            &&& digit3(opcode) == 0xE ==> after.v[FLAG as int] == before >> 7
            &&& digit3(opcode) == 0xE && x != FLAG ==> after.v[x] == before << 1
            &&& forall|r: int| 0 <= r < 16 && r != x && r != FLAG ==> after.v[r] == m.v[r]
        }),
{
    let before = m.v[digit1(opcode) as int];
    assert(before & 1 == before % 2) by (bit_vector);
    assert(before >> 1 == before / 2) by (bit_vector);
    assert(before >> 7 == before / 128) by (bit_vector);
    assert(before << 1 == (before * 2) % 256) by (bit_vector);
}

/// Whether a set bit among the first `n` of the sprite lands on column
/// `c` of row `r` of the machine's screen, the sprite drawn at column `x`,
/// row `y`.
pub open spec fn struck(x: int, y: int, sprite: Seq<u8>, n: int, c: int, r: int) -> bool {
    exists|k: int| 0 <= k < n && #[trigger] hits(64, 32, x, y, sprite, k, c, r)
}

/// On the machine's screen no two bits of a sprite share a pixel, so Dxyn
/// inverts exactly the pixels that a set bit of the sprite lands on, and
/// leaves 1 in VF exactly when one of them was lit before, else 0. The
/// coordinates are Vx and Vy as they are once VF is cleared.
pub proof fn lemma_draw_inverts_what_it_strikes(
    m: Machine,
    opcode: u16,
    keys: Seq<bool>,
    random: u8,
)
    requires
        m.wf(),
        digit0(opcode) == 0xD,
    ensures
        ({
            let n = digit3(opcode) as int;
            let cleared = m.v.update(FLAG as int, 0u8);
            let col = cleared[digit1(opcode) as int] as int;
            let row = cleared[digit2(opcode) as int] as int;
            let sprite = sprite_rows(m.memory, m.index as int, n);
            let after = execute(m, opcode, keys, random).0;
            &&& forall|c: int, r: int|
                0 <= c < 64 && 0 <= r < 32 ==> after.screen[r][c] == (m.screen[r][c] != #[trigger] struck(
                    col,
                    row,
                    sprite,
                    8 * n,
                    c,
                    r,
                ))
            &&& after.v[FLAG as int] == 1 <==> exists|k: int|
                0 <= k < 8 * n && #[trigger] lands_lit(m.screen, 64, 32, col, row, sprite, k)
            &&& after.v[FLAG as int] == 0 || after.v[FLAG as int] == 1
            &&& after.dirty
        }),
{
    let n = digit3(opcode) as int;
    let cleared = m.v.update(FLAG as int, 0u8);
    let col = cleared[digit1(opcode) as int] as int;
    let row = cleared[digit2(opcode) as int] as int;
    let sprite = sprite_rows(m.memory, m.index as int, n);
    assert forall|c: int, r: int| 0 <= c < 64 && 0 <= r < 32 implies flips(
        64,
        32,
        col,
        row,
        sprite,
        8 * n,
        c,
        r,
    ) == #[trigger] struck(col, row, sprite, 8 * n, c, r) by {
        lemma_flips_where_hit(64, 32, col, row, sprite, 8 * n, c, r);
    }
    lemma_collides_where_lit(m.screen, 64, 32, col, row, sprite, 8 * n);
}

/// Dxyn carried out twice in a row gives the screen back as it was, and
/// the second time VF is 1 exactly when the first time lit a pixel.
pub proof fn lemma_draw_twice(m: Machine, opcode: u16, keys: Seq<bool>, random: u8)
    requires
        m.wf(),
        digit0(opcode) == 0xD,
    ensures
        ({
            let once = execute(m, opcode, keys, random).0;
            let twice = execute(once, opcode, keys, random).0;
            &&& twice.screen == m.screen
            &&& twice.v[FLAG as int] == 1 <==> exists|c: int, r: int|
                0 <= c < 64 && 0 <= r < 32 && #[trigger] newly_lit(m.screen, once.screen, c, r)
            &&& twice.v[FLAG as int] == 0 || twice.v[FLAG as int] == 1
        }),
{
    let x = digit1(opcode) as int;
    let y = digit2(opcode) as int;
    let n = digit3(opcode) as int;
    let once = m.draw(x, y, n);
    let col = m.v.update(FLAG as int, 0u8)[x] as int;
    let row = m.v.update(FLAG as int, 0u8)[y] as int;
    assert(once.v.update(FLAG as int, 0u8) =~= m.v.update(FLAG as int, 0u8));
    let sprite = sprite_rows(m.memory, m.index as int, n);
    lemma_draw_twice_restores(m.screen, 64, 32, col, row, sprite, 8 * n);
    lemma_second_draw_collides(m.screen, 64, 32, col, row, sprite, 8 * n);
}

/// A call followed at once by a return goes on behind the call: where the
/// instruction at the program counter is a call of `nnn`, the stack has
/// room, and the instruction at `nnn` is a return, two cycles leave the
/// program counter two bytes past the call and the stack as it was.
pub proof fn lemma_call_then_return(
    m: Machine,
    keys1: Seq<bool>,
    random1: u8,
    keys2: Seq<bool>,
    random2: u8,
)
    requires
        m.wf(),
        !m.waiting,
        m.pc + 1 < MEMORY_SIZE,
        digit0(opcode_at(m.memory, m.pc as int)) == 0x2,
        m.stack.len() < STACK_SIZE,
        address_of(opcode_at(m.memory, m.pc as int)) + 1 < MEMORY_SIZE,
        opcode_at(m.memory, address_of(opcode_at(m.memory, m.pc as int)) as int) == 0x00EE,
    ensures
        step(m, keys1, random1) is Ok,
        step(m, keys1, random1)->Ok_0.pc == address_of(opcode_at(m.memory, m.pc as int)),
        step(step(m, keys1, random1)->Ok_0, keys2, random2) is Ok,
        step(step(m, keys1, random1)->Ok_0, keys2, random2)->Ok_0.pc == m.pc + OPCODE_SIZE,
        step(step(m, keys1, random1)->Ok_0, keys2, random2)->Ok_0.stack == m.stack,
{
    let call = opcode_at(m.memory, m.pc as int);
    let nnn = address_of(call);
    assert(fault(m, call).is_none());
    let called = step(m, keys1, random1)->Ok_0;
    assert(called.pc == nnn);
    assert(called.memory == m.memory);
    assert(called.stack == m.stack.push((m.pc + OPCODE_SIZE) as usize));
    let ret: u16 = 0x00EE;
    assert(digit0(ret) == 0 && digit1(ret) == 0 && digit2(ret) == 0xE && digit3(ret) == 0xE);
    assert(fault(called, ret).is_none());
    assert(called.stack.drop_last() =~= m.stack);
}

/// Fx55 writes exactly the registers V0 to Vx, Vx included, to memory
/// from the index register on and leaves every other byte alone; Fx65
/// reads exactly those registers from there and leaves the others alone.
/// With x = 0xF that is all sixteen registers.
pub proof fn lemma_register_block(m: Machine, opcode: u16, keys: Seq<bool>, random: u8)
    requires
        m.wf(),
        digit0(opcode) == 0xF,
        digit2(opcode) == 0x5 || digit2(opcode) == 0x6,
        digit3(opcode) == 0x5,
        fault(m, opcode).is_none(),
    ensures
        ({
            let x = digit1(opcode) as int;
            let after = execute(m, opcode, keys, random).0;
            let i = m.index as int;
            &&& digit2(opcode) == 0x5 ==> {
                &&& forall|r: int| 0 <= r <= x ==> after.memory[i + r] == m.v[r]
                &&& forall|a: int|
                    0 <= a < MEMORY_SIZE && !(i <= a <= i + x) ==> after.memory[a] == m.memory[a]
                &&& after.v == m.v
            }
            &&& digit2(opcode) == 0x6 ==> {
                &&& forall|r: int| 0 <= r <= x ==> after.v[r] == m.memory[i + r]
                &&& forall|r: int| x < r < 16 ==> after.v[r] == m.v[r]
                &&& after.memory == m.memory
            }
            &&& after.index == m.index
        }),
{
}

/// The key that ends a stall is the lowest one held down: `first_pressed`
/// gives a key exactly when that key is down and no lower one is, and
/// gives none exactly when no key is down.
pub proof fn lemma_first_pressed(keys: Seq<bool>)
    ensures
        match first_pressed(keys) {
            Some(key) => 0 <= key < keys.len() && keys[key] && forall|j: int|
                0 <= j < key ==> !keys[j],
            None => forall|j: int| 0 <= j < keys.len() ==> !keys[j],
        },
{
    lemma_first_pressed_from(keys, 0);
}

/// What `lemma_first_pressed` says, for the keys from `from` upwards.
pub proof fn lemma_first_pressed_from(keys: Seq<bool>, from: int)
    requires
        0 <= from,
    ensures
        match first_pressed_from(keys, from) {
            Some(key) => from <= key < keys.len() && keys[key] && forall|j: int|
                from <= j < key ==> !keys[j],
            None => forall|j: int| from <= j < keys.len() ==> !keys[j],
        },
    decreases keys.len() - from,
{
    if from < keys.len() && !keys[from] {
        lemma_first_pressed_from(keys, from + 1);
    }
}

/// A stalled machine with no key down stays as it is, but for the frame
/// counting as unwritten: no register, timer or program counter moves.
/// With a key down the lowest such key goes to the waiting register, the
/// stall ends, and nothing else moves: the cycle carries out no
/// instruction.
pub proof fn lemma_stall(m: Machine, keys: Seq<bool>, random: u8)
    requires
        m.wf(),
        m.waiting,
        keys.len() == 16,
    ensures
        step(m, keys, random) is Ok,
        (forall|j: int| 0 <= j < 16 ==> !keys[j]) ==> step(m, keys, random)->Ok_0 == (Machine {
            dirty: false,
            ..m
        }),
        forall|k: int|
            0 <= k < 16 && keys[k] && (forall|j: int| 0 <= j < k ==> !keys[j]) ==> step(
                m,
                keys,
                random,
            )->Ok_0 == (Machine {
                dirty: false,
                waiting: false,
                v: m.v.update(m.wait_register as int, k as u8),
                ..m
            }),
{
    lemma_first_pressed(keys);
}

/// Only the random instruction looks at the random byte.
pub proof fn lemma_random_byte_matters_only_to_cxkk(
    m: Machine,
    opcode: u16,
    keys: Seq<bool>,
    random1: u8,
    random2: u8,
)
    requires
        digit0(opcode) != 0xC,
    ensures
        execute(m, opcode, keys, random1) == execute(m, opcode, keys, random2),
{
}

/// An opcode that is no instruction changes nothing, and the cycle goes on
/// with the next opcode: here for the opcodes 0nnn other than 00E0 and
/// 00EE.
pub proof fn lemma_unknown_opcode_is_skipped(m: Machine, opcode: u16, keys: Seq<bool>, random: u8)
    requires
        digit0(opcode) == 0x0,
        opcode != 0x00E0,
        opcode != 0x00EE,
    ensures
        fault(m, opcode).is_none(),
        execute(m, opcode, keys, random) == (m, PcInstructions::Next),
{
    assert(opcode == digit0(opcode) * 0x1000 + digit1(opcode) * 0x100 + digit2(opcode) * 0x10
        + digit3(opcode));
}

/// A cycle that succeeds leaves a well-formed machine.
pub proof fn lemma_step_keeps_wf(m: Machine, keys: Seq<bool>, random: u8)
    requires
        m.wf(),
        keys.len() == 16,
    ensures
        step(m, keys, random) is Ok ==> step(m, keys, random)->Ok_0.wf(),
{
    lemma_first_pressed(keys);
}

/// A cycle fails in exactly four ways, and each error names the program
/// counter and, where one was fetched, the opcode at fault.
pub proof fn lemma_errors_name_the_place(m: Machine, keys: Seq<bool>, random: u8)
    requires
        m.wf(),
    ensures
        match step(m, keys, random) {
            Ok(_) => true,
            Err(CpuError::PcOutOfBounds { pc }) => pc == m.pc && m.pc + 1 >= MEMORY_SIZE,
            Err(CpuError::StackOverflow { opcode, pc }) => pc == m.pc && opcode == opcode_at(
                m.memory,
                m.pc as int,
            ) && m.stack.len() == STACK_SIZE,
            Err(CpuError::StackUnderflow { opcode, pc }) => pc == m.pc && opcode == opcode_at(
                m.memory,
                m.pc as int,
            ) && m.stack.len() == 0,
            Err(CpuError::MemoryOutOfBounds { opcode, pc }) => pc == m.pc && opcode == opcode_at(
                m.memory,
                m.pc as int,
            ),
            Err(CpuError::ProgramTooLarge { .. }) => false,
        },
{
}

} // verus!
