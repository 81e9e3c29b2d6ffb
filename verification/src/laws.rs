//! Laws of the instruction set: what holds of every machine, proved from
//! the definitions that the contracts of the machine's operations use.

use vstd::prelude::*;
use crate::display::{blit, collides, column_offset, erases, flips, row_lit, spec_draw, sprite_bit};
use crate::error::Chip8Error;
use crate::execute::{advance, spec_dispatch, spec_execute};
use crate::instruction::{lemma_decode_encode, spec_decode, spec_encode, Instruction};
use crate::machine::Machine;

verus! {

/// Whether `m` is about to execute an instruction: it does not wait for a
/// key and its program counter is on an instruction.
pub open spec fn running(m: Machine) -> bool {
    !m.blocked() && m.pc < 4094
}

/// Adding registers: for every pair of registers `x`, `y` with `x` not the
/// flag register, the word `8xy4` leaves the sum modulo 256 in `V[x]` and
/// sets `V[F]` to 1 if the sum exceeds 255, else to 0.
pub proof fn lemma_add_sets_carry(m: Machine, x: u8, y: u8, random: u8)
    requires
        m.wf(),
        running(m),
        x < 0xF,
        y <= 0xF,
    ensures
        spec_dispatch(m, spec_encode(Instruction::AddReg { x, y }), random) matches Ok(after)
            && after.v[x as int] == (m.v[x as int] + m.v[y as int]) % 256 && after.v[0xF] == (if m.v[x as int]
            + m.v[y as int] > 255 {
            1u8
        } else {
            0u8
        }),
{
    lemma_decode_encode(Instruction::AddReg { x, y });
}

/// Shifting right: for every register `x` but the flag register, the word
/// `8xy6` leaves `V[x] >> 1` in `V[x]` and the low bit of the old `V[x]` in
/// `V[F]`.
pub proof fn lemma_shift_right_keeps_low_bit(m: Machine, x: u8, y: u8, random: u8)
    requires
        m.wf(),
        running(m),
        x < 0xF,
        y <= 0xF,
    ensures
        spec_dispatch(m, spec_encode(Instruction::ShiftRight { x, y }), random) matches Ok(after)
            && after.v[x as int] == m.v[x as int] >> 1 && after.v[0xF] == m.v[x as int] & 1,
{
    lemma_decode_encode(Instruction::ShiftRight { x, y });
    let a: u8 = m.v[x as int];
    assert(a >> 1 == a / 2 && a & 1 == a % 2) by (bit_vector);
}

/// The machine after the calls to `targets`, one inside the other, each
/// executed where the one before it led.
pub open spec fn after_calls(m: Machine, targets: Seq<u16>) -> Result<Machine, Chip8Error>
    decreases targets.len(),
{
    if targets.len() == 0 {
        Ok(m)
    } else {
        match spec_execute(m, Instruction::Call { addr: targets[0] }, 0) {
            Ok(called) => after_calls(called, targets.drop_first()),
            Err(e) => Err(e),
        }
    }
}

/// The machine after `count` returns, each executed where the one before
/// it led.
pub open spec fn after_returns(m: Machine, count: nat) -> Result<Machine, Chip8Error>
    decreases count,
{
    if count == 0 {
        Ok(m)
    } else {
        match after_returns(m, (count - 1) as nat) {
            Ok(back) => spec_execute(back, Instruction::Return, 0),
            Err(e) => Err(e),
        }
    }
}

/// A call pushes the address of the instruction after it and jumps; a
/// return, whatever the subroutine did to the rest of the machine, pops that
/// address into the program counter and leaves the stack as it was before
/// the call.
pub proof fn lemma_call_then_return(m: Machine, addr: u16, inner: Machine)
    requires
        m.wf(),
        running(m),
        addr < 0x1000,
        m.stack.len() < 16,
        running(inner),
        spec_execute(m, Instruction::Call { addr }, 0) matches Ok(called) && inner.stack
            == called.stack,
    ensures
        spec_execute(m, Instruction::Call { addr }, 0) == Ok::<Machine, Chip8Error>(
            Machine { pc: addr, stack: m.stack.push((m.pc + 2) as u16), ..m },
        ),
        spec_execute(inner, Instruction::Return, 0) == Ok::<Machine, Chip8Error>(
            Machine { pc: (m.pc + 2) as u16, stack: m.stack, ..inner },
        ),
{
    assert(m.stack.push((m.pc + 2) as u16).drop_last() =~= m.stack);
}

/// Calls nested to any depth that the stack holds, followed by as many
/// returns, bring the machine back to the instruction after the first
/// call, with the stack as it was. Each target lies where a return can be
/// fetched and leaves room for the instruction after the next call.
pub proof fn lemma_nested_calls_return(m: Machine, targets: Seq<u16>)
    requires
        m.wf(),
        running(m),
        targets.len() >= 1,
        m.stack.len() + targets.len() <= 16,
        forall|k: int| 0 <= k < targets.len() ==> targets[k] < 4092,
    ensures
        after_calls(m, targets) matches Ok(inner) && after_returns(inner, targets.len()) == Ok::<
            Machine,
            Chip8Error,
        >(advance(m)),
    decreases targets.len(),
{
    let first = targets[0];
    let called = Machine { pc: first, stack: m.stack.push((m.pc + 2) as u16), ..m };
    assert(spec_execute(m, Instruction::Call { addr: first }, 0) == Ok::<Machine, Chip8Error>(
        called,
    ));
    assert(called.stack.drop_last() =~= m.stack);
    let rest = targets.drop_first();
    if rest.len() == 0 {
        assert(after_calls(called, rest) == Ok::<Machine, Chip8Error>(called));
        assert(after_returns(called, 0) == Ok::<Machine, Chip8Error>(called));
        assert(after_returns(called, 1) == spec_execute(called, Instruction::Return, 0));
    } else {
        lemma_nested_calls_return(called, rest);
        let inner = after_calls(called, rest)->Ok_0;
        assert(after_returns(inner, rest.len()) == Ok::<Machine, Chip8Error>(advance(called)));
        assert(after_returns(inner, targets.len()) == spec_execute(
            advance(called),
            Instruction::Return,
            0,
        ));
    }
}

/// A call on a full stack is refused with a stack overflow.
pub proof fn lemma_call_overflows(m: Machine, addr: u16, random: u8)
    requires
        m.wf(),
        running(m),
        addr < 0x1000,
        m.stack.len() == 16,
    ensures
        spec_dispatch(m, spec_encode(Instruction::Call { addr }), random) == Err::<
            Machine,
            Chip8Error,
        >(Chip8Error::StackOverflow),
{
    lemma_decode_encode(Instruction::Call { addr });
}

/// A return on an empty stack is refused with a stack underflow.
pub proof fn lemma_return_underflows(m: Machine, random: u8)
    requires
        m.wf(),
        running(m),
        m.stack.len() == 0,
    ensures
        spec_dispatch(m, 0x00EE, random) == Err::<Machine, Chip8Error>(
            Chip8Error::StackUnderflow,
        ),
{
}

/// If `sprite` flips `cell`, one of its rows is the first to fall on it.
proof fn lemma_first_row_on(sprite: Seq<u8>, x: int, y: int, cell: int) -> (r: int)
    requires
        flips(sprite, x, y, cell),
    ensures
        0 <= r < sprite.len(),
        row_lit(sprite[r], x, y + r, cell),
        !flips(sprite.take(r), x, y, cell),
    decreases sprite.len(),
{
    let shorter = sprite.drop_last();
    if flips(shorter, x, y, cell) {
        let r = lemma_first_row_on(shorter, x, y, cell);
        assert(shorter.take(r) =~= sprite.take(r));
        r
    } else {
        let r = sprite.len() - 1;
        assert(sprite.take(r) =~= shorter);
        r
    }
}

/// Drawing is its own inverse: the same sprite drawn twice at the same
/// place leaves the framebuffer, and the whole machine, as it was. And if
/// the first drawing turned a pixel on, the second reports a collision.
pub proof fn lemma_draw_twice_restores(m: Machine, x: int, y: int, addr: int, size: int)
    requires
        m.wf(),
        0 <= addr,
        0 <= size,
        addr + size <= 4096,
    ensures
        spec_draw(m, x, y, addr, size) matches Ok((once, first_hit)) && spec_draw(
            once,
            x,
            y,
            addr,
            size,
        ) matches Ok((twice, second_hit)) && twice == m && ((exists|cell: int|
            0 <= cell < 2048 && !m.screen[cell] && once.screen[cell]) ==> second_hit),
{
    let sprite = m.memory.subrange(addr, addr + size);
    let shown = blit(m.screen, sprite, x, y);
    assert(blit(shown, sprite, x, y) =~= m.screen);
    if exists|cell: int| 0 <= cell < 2048 && !m.screen[cell] && shown[cell] {
        let cell = choose|cell: int| 0 <= cell < 2048 && !m.screen[cell] && shown[cell];
        let r = lemma_first_row_on(sprite, x, y, cell);
        assert(erases(shown, sprite, x, y, r, cell));
        assert(collides(shown, sprite, x, y));
    }
}

/// If no row of `sprite` falls on `cell`, the sprite leaves it alone.
proof fn lemma_untouched(sprite: Seq<u8>, x: int, y: int, cell: int)
    requires
        forall|r: int| 0 <= r < sprite.len() ==> !row_lit(#[trigger] sprite[r], x, y + r, cell),
    ensures
        !flips(sprite, x, y, cell),
    decreases sprite.len(),
{
    if sprite.len() > 0 {
        let shorter = sprite.drop_last();
        assert forall|r: int| 0 <= r < shorter.len() implies !row_lit(
            #[trigger] shorter[r],
            x,
            y + r,
            cell,
        ) by {
            assert(shorter[r] == sprite[r]);
        }
        lemma_untouched(shorter, x, y, cell);
        assert(!row_lit(sprite[sprite.len() - 1], x, y + (sprite.len() - 1), cell));
    }
}

/// If row `r` is the only row of `sprite` that falls on `cell`, the sprite
/// flips it.
proof fn lemma_single_row_flips(sprite: Seq<u8>, x: int, y: int, cell: int, r: int)
    requires
        0 <= r < sprite.len(),
        row_lit(sprite[r], x, y + r, cell),
        forall|q: int|
            0 <= q < sprite.len() && q != r ==> !row_lit(#[trigger] sprite[q], x, y + q, cell),
    ensures
        flips(sprite, x, y, cell),
        !flips(sprite.take(r), x, y, cell),
    decreases sprite.len(),
{
    let shorter = sprite.drop_last();
    let before = sprite.take(r);
    assert forall|q: int| 0 <= q < before.len() implies !row_lit(
        #[trigger] before[q],
        x,
        y + q,
        cell,
    ) by {
        assert(before[q] == sprite[q]);
    }
    lemma_untouched(before, x, y, cell);
    if r == sprite.len() - 1 {
        assert(shorter =~= before);
    } else {
        assert forall|q: int| 0 <= q < shorter.len() && q != r implies !row_lit(
            #[trigger] shorter[q],
            x,
            y + q,
            cell,
        ) by {
            assert(shorter[q] == sprite[q]);
        }
        assert(shorter[r] == sprite[r]);
        lemma_single_row_flips(shorter, x, y, cell, r);
        assert(!row_lit(sprite[sprite.len() - 1], x, y + (sprite.len() - 1), cell));
    }
}

/// For a sprite no taller than the screen the second drawing reports a
/// collision only if the first turned a pixel on: no two rows fall on the
/// same cell, so what the second drawing puts out the first had lit.
pub proof fn lemma_second_collision_is_first_light(
    m: Machine,
    x: int,
    y: int,
    addr: int,
    size: int,
)
    requires
        m.wf(),
        0 <= addr,
        0 <= size <= 32,
        addr + size <= 4096,
    ensures
        spec_draw(m, x, y, addr, size) matches Ok((once, first_hit)) && spec_draw(
            once,
            x,
            y,
            addr,
            size,
        ) matches Ok((twice, second_hit)) && (second_hit <==> exists|cell: int|
            0 <= cell < 2048 && !m.screen[cell] && once.screen[cell]),
{
    lemma_draw_twice_restores(m, x, y, addr, size);
    let sprite = m.memory.subrange(addr, addr + size);
    let shown = blit(m.screen, sprite, x, y);
    if collides(shown, sprite, x, y) {
        let (r, cell) = choose|r: int, cell: int| erases(shown, sprite, x, y, r, cell);
        assert forall|q: int| 0 <= q < sprite.len() && q != r implies !row_lit(
            #[trigger] sprite[q],
            x,
            y + q,
            cell,
        ) by {
            if (y + q) % 32 == (y + r) % 32 {
                assert(q == r);
            }
        }
        lemma_single_row_flips(sprite, x, y, cell, r);
        assert(!m.screen[cell] && shown[cell]);
    }
}

/// Sprites wrap round the screen: bit `k` of a one-row sprite drawn at
/// `(x, y)` falls on column `(x + k) % 64` of row `y % 32`, and flips that
/// cell exactly if the bit is set.
pub proof fn lemma_draw_wraps(m: Machine, x: int, y: int, addr: int, k: int)
    requires
        m.wf(),
        0 <= addr < 4096,
        0 <= k < 8,
    ensures
        spec_draw(m, x, y, addr, 1) matches Ok((after, hit)) && after.screen[(x + k) % 64 + 64 * (y
            % 32)] == (m.screen[(x + k) % 64 + 64 * (y % 32)] != sprite_bit(
            m.memory[addr],
            k,
        )),
{
    let sprite = m.memory.subrange(addr, addr + 1);
    let cell = (x + k) % 64 + 64 * (y % 32);
    assert(sprite.drop_last() =~= Seq::<u8>::empty());
    assert(sprite.last() == m.memory[addr]);
    assert(!flips(sprite.drop_last(), x, y, cell));
    assert(cell / 64 == y % 32 && cell % 64 == (x + k) % 64);
    assert(column_offset(cell, x) == k);
}

/// A word that matches no instruction is refused as invalid, whatever the
/// machine; `FFFF` is such a word.
pub proof fn lemma_invalid_word_refused(m: Machine, opcode: u16, random: u8)
    requires
        spec_decode(opcode) is None,
    ensures
        spec_dispatch(m, opcode, random) == Err::<Machine, Chip8Error>(Chip8Error::InvalidOpcode),
        spec_decode(0xFFFF) is None,
{
}

} // verus!
