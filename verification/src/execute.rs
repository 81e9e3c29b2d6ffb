//! What each instruction does to the machine, and the cycle that fetches,
//! decodes and executes one.

use vstd::prelude::*;
use crate::display::spec_draw;
use crate::error::Chip8Error;
use crate::instruction::{decode, spec_decode, Instruction};
use crate::font::{FONT_BASE, GLYPH_BYTES};
use crate::machine::{settled, spec_fetch, Chip8, Machine, STACK_CAPACITY};

verus! {

/// The flag value for a condition: 1 when it holds, else 0.
pub open spec fn flag(cond: bool) -> u8 {
    if cond {
        1
    } else {
        0
    }
}

/// `m` with the program counter on the next instruction.
pub open spec fn advance(m: Machine) -> Machine {
    Machine { pc: (m.pc + 2) as u16, ..m }
}

/// `m` with the program counter past the next instruction if `cond` holds,
/// else on it.
pub open spec fn skip_when(m: Machine, cond: bool) -> Machine {
    Machine {
        pc: (m.pc + if cond {
            4int
        } else {
            2int
        }) as u16,
        ..m
    }
}

/// `m` with `value` in register `x`.
pub open spec fn with_v(m: Machine, x: u8, value: u8) -> Machine {
    Machine { v: m.v.update(x as int, value), ..m }
}

/// Memory after the three decimal digits of `value` have been stored from
/// `addr` on, hundreds first.
pub open spec fn with_decimal(memory: Seq<u8>, addr: int, value: u8) -> Seq<u8> {
    memory.update(addr, (value / 100) as u8).update(addr + 1, ((value / 10) % 10) as u8).update(
        addr + 2,
        (value % 10) as u8,
    )
}

/// Memory after the registers `V[0]` to `V[x]` have been stored from `addr`
/// on.
pub open spec fn with_stored(memory: Seq<u8>, addr: int, v: Seq<u8>, x: int) -> Seq<u8> {
    Seq::new(
        4096,
        |a: int|
            if addr <= a <= addr + x {
                v[a - addr]
            } else {
                memory[a]
            },
    )
}

/// The registers after `V[0]` to `V[x]` have been loaded from `addr` on.
pub open spec fn with_loaded(v: Seq<u8>, memory: Seq<u8>, addr: int, x: int) -> Seq<u8> {
    Seq::new(
        16,
        |r: int|
            if r <= x {
                memory[addr + r]
            } else {
                v[r]
            },
    )
}

/// What `instr` does to a machine that runs and whose program counter is
/// on an instruction: the new machine, or the error it stops with. `random`
/// is the byte that the host drew for this instruction.
///
/// The arithmetic instructions that report in `V[F]` write the flag first
/// and then compute `V[x]` from the registers as they are after that, so
/// the flag takes part in the result where `x` or `y` is `F`; the addition
/// alone sums the old registers before it writes either.
pub open spec fn spec_apply(m: Machine, instr: Instruction, random: u8) -> Result<
    Machine,
    Chip8Error,
> {
    match instr {
        Instruction::ClearScreen => Ok(
            advance(Machine { screen: Seq::new(2048, |cell: int| false), ..m }),
        ),
        Instruction::Return => if m.stack.len() == 0 {
            Err(Chip8Error::StackUnderflow)
        } else {
            Ok(Machine { pc: m.stack.last(), stack: m.stack.drop_last(), ..m })
        },
        Instruction::Jump { addr } => Ok(Machine { pc: addr, ..m }),
        Instruction::Call { addr } => if m.stack.len() >= 16 {
            Err(Chip8Error::StackOverflow)
        } else {
            Ok(Machine { pc: addr, stack: m.stack.push((m.pc + 2) as u16), ..m })
        },
        Instruction::SkipEqByte { x, kk } => Ok(skip_when(m, m.v[x as int] == kk)),
        Instruction::SkipNeByte { x, kk } => Ok(skip_when(m, m.v[x as int] != kk)),
        Instruction::SkipEqReg { x, y } => Ok(skip_when(m, m.v[x as int] == m.v[y as int])),
        Instruction::LoadByte { x, kk } => Ok(advance(with_v(m, x, kk))),
        Instruction::AddByte { x, kk } => Ok(
            advance(with_v(m, x, ((m.v[x as int] + kk) % 256) as u8)),
        ),
        Instruction::Move { x, y } => Ok(advance(with_v(m, x, m.v[y as int]))),
        Instruction::Or { x, y } => Ok(advance(with_v(m, x, m.v[x as int] | m.v[y as int]))),
        Instruction::And { x, y } => Ok(advance(with_v(m, x, m.v[x as int] & m.v[y as int]))),
        Instruction::Xor { x, y } => Ok(advance(with_v(m, x, m.v[x as int] ^ m.v[y as int]))),
        Instruction::AddReg { x, y } => {
            let sum = m.v[x as int] + m.v[y as int];
            let flagged = m.v.update(0xF, flag(sum > 255));
            Ok(advance(Machine { v: flagged.update(x as int, (sum % 256) as u8), ..m }))
        },
        Instruction::SubReg { x, y } => {
            let flagged = m.v.update(0xF, flag(m.v[x as int] > m.v[y as int]));
            let difference = (flagged[x as int] - flagged[y as int]) % 256;
            Ok(advance(Machine { v: flagged.update(x as int, difference as u8), ..m }))
        },
        Instruction::ShiftRight { x, y } => {
            let flagged = m.v.update(0xF, (m.v[x as int] % 2) as u8);
            Ok(advance(Machine { v: flagged.update(x as int, (flagged[x as int] / 2) as u8), ..m }))
        },
        Instruction::SubFrom { x, y } => {
            let flagged = m.v.update(0xF, flag(m.v[y as int] > m.v[x as int]));
            let difference = (flagged[y as int] - flagged[x as int]) % 256;
            Ok(advance(Machine { v: flagged.update(x as int, difference as u8), ..m }))
        },
        Instruction::ShiftLeft { x, y } => {
            let flagged = m.v.update(0xF, (m.v[x as int] / 128) as u8);
            let doubled = (flagged[x as int] * 2) % 256;
            Ok(advance(Machine { v: flagged.update(x as int, doubled as u8), ..m }))
        },
        Instruction::SkipNeReg { x, y } => Ok(skip_when(m, m.v[x as int] != m.v[y as int])),
        Instruction::LoadIndex { addr } => Ok(advance(Machine { i: addr, ..m })),
        Instruction::JumpOffset { addr } => Ok(Machine { pc: (addr + m.v[0]) as u16, ..m }),
        Instruction::Random { x, kk } => Ok(advance(with_v(m, x, random & kk))),
        Instruction::Draw { x, y, n } => match spec_draw(
            m,
            m.v[x as int] as int,
            m.v[y as int] as int,
            m.i as int,
            n as int,
        ) {
            Ok((drawn, hit)) => Ok(advance(with_v(drawn, 0xF, flag(hit)))),
            Err(e) => Err(e),
        },
        Instruction::SkipKeyDown { x } => if m.v[x as int] >= 16 {
            Err(Chip8Error::OutOfRange)
        } else {
            Ok(skip_when(m, m.keyboard[m.v[x as int] as int]))
        },
        Instruction::SkipKeyUp { x } => if m.v[x as int] >= 16 {
            Err(Chip8Error::OutOfRange)
        } else {
            Ok(skip_when(m, !m.keyboard[m.v[x as int] as int]))
        },
        Instruction::ReadDelay { x } => Ok(advance(with_v(m, x, m.dt))),
        Instruction::WaitKey { x } => Ok(advance(Machine { pending_key: Some(x), ..m })),
        Instruction::SetDelay { x } => Ok(advance(Machine { dt: m.v[x as int], ..m })),
        Instruction::SetSound { x } => Ok(advance(Machine { st: m.v[x as int], ..m })),
        Instruction::AddIndex { x } => Ok(
            advance(Machine { i: ((m.i + m.v[x as int]) % 0x10000) as u16, ..m }),
        ),
        Instruction::LoadGlyph { x } => Ok(
            advance(Machine { i: (FONT_BASE + GLYPH_BYTES * m.v[x as int]) as u16, ..m }),
        ),
        Instruction::StoreDecimal { x } => if m.i + 2 >= 4096 {
            Err(Chip8Error::OutOfRange)
        } else {
            Ok(advance(Machine { memory: with_decimal(m.memory, m.i as int, m.v[x as int]), ..m }))
        },
        Instruction::StoreRegs { x } => if m.i + x >= 4096 {
            Err(Chip8Error::OutOfRange)
        } else {
            Ok(advance(Machine { memory: with_stored(m.memory, m.i as int, m.v, x as int), ..m }))
        },
        Instruction::LoadRegs { x } => if m.i + x >= 4096 {
            Err(Chip8Error::OutOfRange)
        } else {
            Ok(advance(Machine { v: with_loaded(m.v, m.memory, m.i as int, x as int), ..m }))
        },
    }
}

/// What executing `instr` makes of `m`. An instruction that no word encodes
/// is invalid. A machine that waits for a key does nothing. A program
/// counter of 4094 or more is on no instruction and out of range.
pub open spec fn spec_execute(m: Machine, instr: Instruction, random: u8) -> Result<
    Machine,
    Chip8Error,
> {
    if !instr.wf() {
        Err(Chip8Error::InvalidOpcode)
    } else if m.blocked() {
        Ok(m)
    } else if m.pc >= 4094 {
        Err(Chip8Error::OutOfRange)
    } else {
        spec_apply(m, instr, random)
    }
}

/// What executing the instruction word `opcode` makes of `m`.
pub open spec fn spec_dispatch(m: Machine, opcode: u16, random: u8) -> Result<Machine, Chip8Error> {
    match spec_decode(opcode) {
        Some(instr) => spec_execute(m, instr, random),
        None => Err(Chip8Error::InvalidOpcode),
    }
}

/// What one cycle makes of `m`: nothing while it waits for a key, else the
/// instruction at the program counter is fetched and executed.
pub open spec fn spec_cycle(m: Machine, random: u8) -> Result<Machine, Chip8Error> {
    if m.blocked() {
        Ok(m)
    } else {
        match spec_fetch(m) {
            Ok(opcode) => spec_dispatch(m, opcode, random),
            Err(e) => Err(e),
        }
    }
}

/// The flag value for a condition.
fn carry_of(cond: bool) -> (carry: u8)
    ensures
        carry == flag(cond),
{
    if cond {
        1
    } else {
        0
    }
}

/// `a - b` modulo 256.
fn wrapping_difference(a: u8, b: u8) -> (d: u8)
    ensures
        d == (a - b) % 256,
{
    a.wrapping_sub(b)
}

/// `2 * a` modulo 256.
fn wrapping_double(a: u8) -> (d: u8)
    ensures
        d == (a * 2) % 256,
{
    a.wrapping_mul(2)
}

/// `a + b` modulo 256.
fn wrapping_sum(a: u8, b: u8) -> (s: u8)
    ensures
        s == (a + b) % 256,
{
    a.wrapping_add(b)
}

impl Chip8 {
    /// Moves the program counter to the next instruction, or past it if
    /// `skip` is set.
    fn step_over(&mut self, skip: bool)
        requires
            old(self)@.pc < 4094,
        ensures
            final(self)@ == skip_when(old(self)@, skip),
            final(self).registers.sp == old(self).registers.sp,
    {
        if skip {
            self.registers.pc = self.registers.pc + 4;
        } else {
            self.registers.pc = self.registers.pc + 2;
        }
    }

    /// Stores `V[0]` to `V[x]` in memory from `I` on.
    fn store_registers(&mut self, x: u8)
        requires
            x < 16,
            old(self)@.i + x < 4096,
        ensures
            final(self)@ == (Machine {
                memory: with_stored(
                    old(self)@.memory,
                    old(self)@.i as int,
                    old(self)@.v,
                    x as int,
                ),
                ..old(self)@
            }),
            final(self).registers.sp == old(self).registers.sp,
    {
        let ghost before = self@;
        let base: usize = self.registers.i as usize;
        let mut r: usize = 0;
        while r <= x as usize
            invariant
                r <= x + 1,
                x < 16,
                base == before.i,
                base + x < 4096,
                self@ == (Machine { memory: self@.memory, ..before }),
                self@.memory == with_stored(before.memory, base as int, before.v, r - 1),
                self.registers.sp == old(self).registers.sp,
            decreases x + 1 - r,
        {
            self.memory[base + r] = self.registers.v[r];
            r = r + 1;
        }
    }

    /// Loads `V[0]` to `V[x]` from memory from `I` on.
    fn load_registers(&mut self, x: u8)
        requires
            x < 16,
            old(self)@.i + x < 4096,
        ensures
            final(self)@ == (Machine {
                v: with_loaded(old(self)@.v, old(self)@.memory, old(self)@.i as int, x as int),
                ..old(self)@
            }),
            final(self).registers.sp == old(self).registers.sp,
    {
        let ghost before = self@;
        let base: usize = self.registers.i as usize;
        let mut r: usize = 0;
        while r <= x as usize
            invariant
                r <= x + 1,
                x < 16,
                base == before.i,
                base + x < 4096,
                self@ == (Machine { v: self@.v, ..before }),
                self@.v == with_loaded(before.v, before.memory, base as int, r - 1),
                self.registers.sp == old(self).registers.sp,
            decreases x + 1 - r,
        {
            self.registers.v[r] = self.memory[base + r];
            r = r + 1;
        }
    }

    /// Executes a jump, a call, a return or the clearing of the screen.
    fn execute_flow(&mut self, instr: Instruction) -> (res: Result<(), Chip8Error>)
        requires
            old(self).wf(),
            instr.wf(),
            old(self)@.pc < 4094,
            instr is ClearScreen || instr is Return || instr is Jump || instr is Call
                || instr is JumpOffset,
        ensures
            final(self).wf(),
            settled(res, old(self)@, final(self)@, spec_apply(old(self)@, instr, 0)),
    {
        match instr {
            Instruction::ClearScreen => {
                self.screen = [false;2048];
                assert(self@.screen =~= Seq::new(2048, |cell: int| false));
                self.step_over(false);
            },
            Instruction::Return => {
                match self.stack.pop() {
                    Some(addr) => {
                        self.registers.pc = addr;
                        self.registers.sp = self.registers.sp - 1;
                        assert(self@.stack =~= old(self)@.stack.drop_last());
                    },
                    None => {
                        return Err(Chip8Error::StackUnderflow);
                    },
                }
            },
            Instruction::Jump { addr } => {
                self.registers.pc = addr;
            },
            Instruction::Call { addr } => {
                if self.stack.len() >= STACK_CAPACITY {
                    return Err(Chip8Error::StackOverflow);
                }
                self.stack.push(self.registers.pc + 2);
                self.registers.sp = self.registers.sp + 1;
                self.registers.pc = addr;
            },
            Instruction::JumpOffset { addr } => {
                self.registers.pc = addr + self.registers.v[0] as u16;
            },
            _ => {},
        }
        Ok(())
    }

    /// Executes one of the conditional skips.
    fn execute_skip(&mut self, instr: Instruction) -> (res: Result<(), Chip8Error>)
        requires
            old(self).wf(),
            instr.wf(),
            old(self)@.pc < 4094,
            instr is SkipEqByte || instr is SkipNeByte || instr is SkipEqReg || instr is SkipNeReg
                || instr is SkipKeyDown || instr is SkipKeyUp,
        ensures
            final(self).wf(),
            settled(res, old(self)@, final(self)@, spec_apply(old(self)@, instr, 0)),
    {
        let skip: bool = match instr {
            Instruction::SkipEqByte { x, kk } => self.registers.v[x as usize] == kk,
            Instruction::SkipNeByte { x, kk } => self.registers.v[x as usize] != kk,
            Instruction::SkipEqReg { x, y } => self.registers.v[x as usize]
                == self.registers.v[y as usize],
            Instruction::SkipNeReg { x, y } => self.registers.v[x as usize]
                != self.registers.v[y as usize],
            Instruction::SkipKeyDown { x } => {
                let key: u8 = self.registers.v[x as usize];
                if key >= 16 {
                    return Err(Chip8Error::OutOfRange);
                }
                self.keyboard[key as usize]
            },
            Instruction::SkipKeyUp { x } => {
                let key: u8 = self.registers.v[x as usize];
                if key >= 16 {
                    return Err(Chip8Error::OutOfRange);
                }
                !self.keyboard[key as usize]
            },
            _ => false,
        };
        self.step_over(skip);
        Ok(())
    }

    /// Executes an instruction that computes one register and touches no
    /// flag.
    fn execute_register(&mut self, instr: Instruction, random: u8)
        requires
            old(self).wf(),
            instr.wf(),
            old(self)@.pc < 4094,
            instr is LoadByte || instr is AddByte || instr is Move || instr is Or || instr is And
                || instr is Xor || instr is Random || instr is ReadDelay,
        ensures
            final(self).wf(),
            Ok::<Machine, Chip8Error>(final(self)@) == spec_apply(old(self)@, instr, random),
    {
        match instr {
            Instruction::LoadByte { x, kk } => {
                self.registers.v[x as usize] = kk;
            },
            Instruction::AddByte { x, kk } => {
                let a: u8 = self.registers.v[x as usize];
                self.registers.v[x as usize] = wrapping_sum(a, kk);
            },
            Instruction::Move { x, y } => {
                self.registers.v[x as usize] = self.registers.v[y as usize];
            },
            Instruction::Or { x, y } => {
                let a: u8 = self.registers.v[x as usize];
                self.registers.v[x as usize] = a | self.registers.v[y as usize];
            },
            Instruction::And { x, y } => {
                let a: u8 = self.registers.v[x as usize];
                self.registers.v[x as usize] = a & self.registers.v[y as usize];
            },
            Instruction::Xor { x, y } => {
                let a: u8 = self.registers.v[x as usize];
                self.registers.v[x as usize] = a ^ self.registers.v[y as usize];
            },
            Instruction::Random { x, kk } => {
                self.registers.v[x as usize] = random & kk;
            },
            Instruction::ReadDelay { x } => {
                self.registers.v[x as usize] = self.registers.dt;
            },
            _ => {},
        }
        self.step_over(false);
    }

    /// Writes `carry` to `V[F]`.
    fn set_flag(&mut self, carry: u8)
        ensures
            final(self)@ == (Machine { v: old(self)@.v.update(0xF, carry), ..old(self)@ }),
            final(self).registers.sp == old(self).registers.sp,
    {
        self.registers.v[0xF] = carry;
    }

    /// Writes `value` to `V[x]`.
    fn set_register(&mut self, x: u8, value: u8)
        requires
            x < 16,
        ensures
            final(self)@ == (Machine { v: old(self)@.v.update(x as int, value), ..old(self)@ }),
            final(self).registers.sp == old(self).registers.sp,
    {
        self.registers.v[x as usize] = value;
    }

    /// Executes one of the arithmetic instructions that report in `V[F]`.
    fn execute_flagged(&mut self, instr: Instruction)
        requires
            old(self).wf(),
            instr.wf(),
            old(self)@.pc < 4094,
            instr is AddReg || instr is SubReg || instr is ShiftRight || instr is SubFrom
                || instr is ShiftLeft,
        ensures
            final(self).wf(),
            Ok::<Machine, Chip8Error>(final(self)@) == spec_apply(old(self)@, instr, 0),
    {
        match instr {
            Instruction::AddReg { x, y } => {
                let sum: u16 = self.registers.v[x as usize] as u16 + self.registers.v[y as usize] as u16;
                self.set_flag(carry_of(sum > 255));
                self.set_register(x, (sum % 256) as u8);
            },
            Instruction::SubReg { x, y } => {
                let borrow: bool = self.registers.v[x as usize] > self.registers.v[y as usize];
                self.set_flag(carry_of(borrow));
                let difference: u8 = wrapping_difference(
                    self.registers.v[x as usize],
                    self.registers.v[y as usize],
                );
                self.set_register(x, difference);
            },
            Instruction::ShiftRight { x, .. } => {
                let low: u8 = self.registers.v[x as usize] % 2;
                self.set_flag(low);
                let halved: u8 = self.registers.v[x as usize] / 2;
                self.set_register(x, halved);
            },
            Instruction::SubFrom { x, y } => {
                let borrow: bool = self.registers.v[y as usize] > self.registers.v[x as usize];
                self.set_flag(carry_of(borrow));
                let difference: u8 = wrapping_difference(
                    self.registers.v[y as usize],
                    self.registers.v[x as usize],
                );
                self.set_register(x, difference);
            },
            Instruction::ShiftLeft { x, .. } => {
                let high: u8 = self.registers.v[x as usize] / 128;
                self.set_flag(high);
                let doubled: u8 = wrapping_double(self.registers.v[x as usize]);
                self.set_register(x, doubled);
            },
            _ => {},
        }
        self.step_over(false);
    }

    /// Executes an instruction that sets the address register, a timer or
    /// the wait for a key.
    fn execute_control(&mut self, instr: Instruction)
        requires
            old(self).wf(),
            instr.wf(),
            old(self)@.pc < 4094,
            instr is LoadIndex || instr is WaitKey || instr is SetDelay || instr is SetSound
                || instr is AddIndex || instr is LoadGlyph,
        ensures
            final(self).wf(),
            Ok::<Machine, Chip8Error>(final(self)@) == spec_apply(old(self)@, instr, 0),
    {
        match instr {
            Instruction::LoadIndex { addr } => {
                self.registers.i = addr;
            },
            Instruction::WaitKey { x } => {
                self.pending_key = Some(x);
            },
            Instruction::SetDelay { x } => {
                self.registers.dt = self.registers.v[x as usize];
            },
            Instruction::SetSound { x } => {
                self.registers.st = self.registers.v[x as usize];
            },
            Instruction::AddIndex { x } => {
                let a: u16 = self.registers.v[x as usize] as u16;
                self.registers.i = self.registers.i.wrapping_add(a);
            },
            Instruction::LoadGlyph { x } => {
                self.registers.i = FONT_BASE + GLYPH_BYTES * (self.registers.v[x as usize] as u16);
            },
            _ => {},
        }
        self.step_over(false);
    }

    /// Executes an instruction that reads or writes memory at `I`.
    fn execute_memory(&mut self, instr: Instruction) -> (res: Result<(), Chip8Error>)
        requires
            old(self).wf(),
            instr.wf(),
            old(self)@.pc < 4094,
            instr is Draw || instr is StoreDecimal || instr is StoreRegs || instr is LoadRegs,
        ensures
            final(self).wf(),
            settled(res, old(self)@, final(self)@, spec_apply(old(self)@, instr, 0)),
    {
        match instr {
            Instruction::Draw { x, y, n } => {
                let column: usize = self.registers.v[x as usize] as usize;
                let row: usize = self.registers.v[y as usize] as usize;
                let addr: usize = self.registers.i as usize;
                match self.draw(column, row, addr, n as usize) {
                    Ok(hit) => {
                        self.registers.v[0xF] = if hit {
                            1
                        } else {
                            0
                        };
                    },
                    Err(e) => {
                        return Err(e);
                    },
                }
            },
            Instruction::StoreDecimal { x } => {
                let addr: usize = self.registers.i as usize;
                if addr + 2 >= 4096 {
                    return Err(Chip8Error::OutOfRange);
                }
                let value: u8 = self.registers.v[x as usize];
                self.memory[addr] = value / 100;
                self.memory[addr + 1] = (value / 10) % 10;
                self.memory[addr + 2] = value % 10;
            },
            Instruction::StoreRegs { x } => {
                if self.registers.i as usize + x as usize >= 4096 {
                    return Err(Chip8Error::OutOfRange);
                }
                self.store_registers(x);
            },
            Instruction::LoadRegs { x } => {
                if self.registers.i as usize + x as usize >= 4096 {
                    return Err(Chip8Error::OutOfRange);
                }
                self.load_registers(x);
            },
            _ => {},
        }
        self.step_over(false);
        Ok(())
    }

    /// Executes one instruction. `random` is the byte that a `Random`
    /// instruction uses; the host draws a fresh one for each call.
    ///
    /// An instruction whose operands do not fit their fields is invalid. A
    /// machine that waits for a key does nothing. Every error leaves the
    /// machine as it was.
    pub fn execute(&mut self, instr: Instruction, random: u8) -> (res: Result<(), Chip8Error>)
        requires
            old(self).wf(),
        ensures
            final(self).wf(),
            settled(res, old(self)@, final(self)@, spec_execute(old(self)@, instr, random)),
    {
        if !instr.is_well_formed() {
            return Err(Chip8Error::InvalidOpcode);
        }
        if self.pending_key.is_some() {
            return Ok(());
        }
        if self.registers.pc >= 4094 {
            return Err(Chip8Error::OutOfRange);
        }
        match instr {
            Instruction::ClearScreen
            | Instruction::Return
            | Instruction::Jump { .. }
            | Instruction::Call { .. }
            | Instruction::JumpOffset { .. } => self.execute_flow(instr),
            Instruction::SkipEqByte { .. }
            | Instruction::SkipNeByte { .. }
            | Instruction::SkipEqReg { .. }
            | Instruction::SkipNeReg { .. }
            | Instruction::SkipKeyDown { .. }
            | Instruction::SkipKeyUp { .. } => self.execute_skip(instr),
            Instruction::LoadByte { .. }
            | Instruction::AddByte { .. }
            | Instruction::Move { .. }
            | Instruction::Or { .. }
            | Instruction::And { .. }
            | Instruction::Xor { .. }
            | Instruction::Random { .. }
            | Instruction::ReadDelay { .. } => {
                self.execute_register(instr, random);
                Ok(())
            },
            Instruction::AddReg { .. }
            | Instruction::SubReg { .. }
            | Instruction::ShiftRight { .. }
            | Instruction::SubFrom { .. }
            | Instruction::ShiftLeft { .. } => {
                self.execute_flagged(instr);
                Ok(())
            },
            Instruction::LoadIndex { .. }
            | Instruction::WaitKey { .. }
            | Instruction::SetDelay { .. }
            | Instruction::SetSound { .. }
            | Instruction::AddIndex { .. }
            | Instruction::LoadGlyph { .. } => {
                self.execute_control(instr);
                Ok(())
            },
            Instruction::Draw { .. }
            | Instruction::StoreDecimal { .. }
            | Instruction::StoreRegs { .. }
            | Instruction::LoadRegs { .. } => self.execute_memory(instr),
        }
    }

    /// Decodes and executes the instruction word `opcode`. A word that
    /// matches no instruction is invalid, and the machine stays as it was.
    pub fn dispatch(&mut self, opcode: u16, random: u8) -> (res: Result<(), Chip8Error>)
        requires
            old(self).wf(),
        ensures
            final(self).wf(),
            settled(res, old(self)@, final(self)@, spec_dispatch(old(self)@, opcode, random)),
    {
        match decode(opcode) {
            Some(instr) => self.execute(instr, random),
            None => Err(Chip8Error::InvalidOpcode),
        }
    }

    /// Runs one cycle: fetches the instruction word at the program counter
    /// and dispatches it. A machine that waits for a key does nothing.
    pub fn cycle(&mut self, random: u8) -> (res: Result<(), Chip8Error>)
        requires
            old(self).wf(),
        ensures
            final(self).wf(),
            settled(res, old(self)@, final(self)@, spec_cycle(old(self)@, random)),
    {
        if self.pending_key.is_some() {
            return Ok(());
        }
        match self.get_next_op() {
            Ok(opcode) => self.dispatch(opcode, random),
            Err(e) => Err(e),
        }
    }
}

} // verus!
