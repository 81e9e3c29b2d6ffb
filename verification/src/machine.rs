//! The machine's state, its mathematical model, and the operations of the
//! host on it: power-on, loading a program, fetching an instruction word,
//! ticking the timers and delivering key events.

use vstd::prelude::*;
use crate::error::Chip8Error;
use crate::font::{font, SPRITES};

verus! {

/// Number of bytes of memory.
pub const MEMORY_SIZE: usize = 4096;

/// Address at which a program is loaded and starts.
pub const PROGRAM_START: u16 = 0x200;

/// The largest program that fits between the load origin and the end of
/// memory.
pub const MAX_PROGRAM_SIZE: usize = 3584;

/// The most return addresses the call stack holds.
pub const STACK_CAPACITY: usize = 16;

/// Width of the display in pixels.
pub const SCREEN_WIDTH: usize = 64;

/// Height of the display in pixels.
pub const SCREEN_HEIGHT: usize = 32;

/// The register file.
pub struct Registers {
    /// The general registers `V[0]` to `V[F]`; `V[F]` doubles as the flag.
    pub v: [u8; 16],
    /// The address register `I`.
    pub i: u16,
    /// The delay timer.
    pub dt: u8,
    /// The sound timer.
    pub st: u8,
    /// The program counter.
    pub pc: u16,
    /// The stack pointer: the depth of the call stack.
    pub sp: u8,
}

/// The whole machine.
pub struct Chip8 {
    /// Memory: font at `0x000`, program from `0x200`.
    pub memory: [u8; 4096],
    /// The register file.
    pub registers: Registers,
    /// The call stack, innermost return address last.
    pub stack: Vec<u16>,
    /// The framebuffer; pixel `(x, y)` is cell `x + 64 * y`.
    pub screen: [bool; 2048],
    /// For each key, whether it is held down.
    pub keyboard: [bool; 16],
    /// While the machine waits for a key press: the register that receives
    /// the key.
    pub pending_key: Option<u8>,
}

/// The machine as a mathematical value. The stack pointer is not part of it:
/// it is the length of `stack`.
#[verifier::ext_equal]
pub struct Machine {
    pub memory: Seq<u8>,
    pub v: Seq<u8>,
    pub i: u16,
    pub dt: u8,
    pub st: u8,
    pub pc: u16,
    pub stack: Seq<u16>,
    pub screen: Seq<bool>,
    pub keyboard: Seq<bool>,
    pub pending_key: Option<u8>,
}

impl Machine {
    /// The shape every machine has: the fixed sizes of its parts, a call
    /// stack within capacity, and a pending register that exists.
    pub open spec fn wf(self) -> bool {
        &&& self.memory.len() == 4096
        &&& self.v.len() == 16
        &&& self.screen.len() == 2048
        &&& self.keyboard.len() == 16
        &&& self.stack.len() <= 16
        &&& (self.pending_key matches Some(x) ==> x < 16)
    }

    /// The machine at power-on: everything zero, off or empty.
    pub open spec fn power_on() -> Machine {
        Machine {
            memory: Seq::new(4096, |a: int| 0u8),
            v: Seq::new(16, |r: int| 0u8),
            i: 0,
            dt: 0,
            st: 0,
            pc: 0,
            stack: Seq::empty(),
            screen: Seq::new(2048, |c: int| false),
            keyboard: Seq::new(16, |k: int| false),
            pending_key: None,
        }
    }

    /// Whether the machine is suspended until a key is pressed.
    pub open spec fn blocked(self) -> bool {
        self.pending_key is Some
    }
}

/// Memory after the font and `rom` have been copied into `memory`.
pub open spec fn loaded_memory(memory: Seq<u8>, rom: Seq<u8>) -> Seq<u8> {
    Seq::new(
        4096,
        |a: int|
            if a < 80 {
                font()[a]
            } else if 0x200 <= a < 0x200 + rom.len() {
                rom[a - 0x200]
            } else {
                memory[a]
            },
    )
}

/// What loading `rom` makes of `m`: the font at `0x000`, the program at
/// `0x200`, and the program counter on the program's first instruction. An
/// empty program leaves the program counter where it was.
pub open spec fn spec_load(m: Machine, rom: Seq<u8>) -> Result<Machine, Chip8Error> {
    if rom.len() > 3584 {
        Err(Chip8Error::LoadTooLarge)
    } else {
        Ok(
            Machine {
                memory: loaded_memory(m.memory, rom),
                pc: if rom.len() == 0 {
                    m.pc
                } else {
                    0x200
                },
                ..m
            },
        )
    }
}

/// The instruction word at the program counter: two bytes, high byte first.
pub open spec fn spec_fetch(m: Machine) -> Result<u16, Chip8Error> {
    if m.pc >= 4094 {
        Err(Chip8Error::OutOfRange)
    } else {
        Ok((m.memory[m.pc as int] as int * 256 + m.memory[m.pc as int + 1] as int) as u16)
    }
}

/// A timer after one tick.
pub open spec fn ticked(timer: u8) -> u8 {
    if timer > 0 {
        (timer - 1) as u8
    } else {
        0
    }
}

/// What a key event makes of `m`. A key that goes down while the machine
/// waits for one is stored in the pending register and ends the wait.
pub open spec fn spec_set_key(m: Machine, key: u8, pressed: bool) -> Result<Machine, Chip8Error> {
    if key >= 16 {
        Err(Chip8Error::OutOfRange)
    } else {
        let keyboard = m.keyboard.update(key as int, pressed);
        match m.pending_key {
            Some(x) if pressed && !m.keyboard[key as int] => Ok(
                Machine { keyboard, v: m.v.update(x as int, key), pending_key: None, ..m },
            ),
            _ => Ok(Machine { keyboard, ..m }),
        }
    }
}

/// Whether an operation that was to turn `before` into `expected` ended as
/// it should: on success the machine is the expected one, on failure the
/// error is the expected one and the machine is untouched.
pub open spec fn settled(
    res: Result<(), Chip8Error>,
    before: Machine,
    after: Machine,
    expected: Result<Machine, Chip8Error>,
) -> bool {
    match expected {
        Ok(m) => res is Ok && after == m,
        Err(e) => res == Err::<(), Chip8Error>(e) && after == before,
    }
}

impl Registers {
    /// All registers zero.
    pub fn new() -> (r: Registers)
        ensures
            r.v@ == Seq::new(16, |k: int| 0u8),
            r.i == 0,
            r.dt == 0,
            r.st == 0,
            r.pc == 0,
            r.sp == 0,
    {
        let r = Registers { v: [0;16], i: 0, dt: 0, st: 0, pc: 0, sp: 0 };
        assert(r.v@ =~= Seq::new(16, |k: int| 0u8));
        r
    }
}

impl View for Chip8 {
    type V = Machine;

    open spec fn view(&self) -> Machine {
        Machine {
            memory: self.memory@,
            v: self.registers.v@,
            i: self.registers.i,
            dt: self.registers.dt,
            st: self.registers.st,
            pc: self.registers.pc,
            stack: self.stack@,
            screen: self.screen@,
            keyboard: self.keyboard@,
            pending_key: self.pending_key,
        }
    }
}

impl Chip8 {
    /// The invariant of the machine: its model is well formed and the stack
    /// pointer is the depth of the call stack.
    pub open spec fn wf(&self) -> bool {
        &&& self@.wf()
        &&& self.registers.sp as int == self.stack@.len()
    }

    /// A machine at power-on.
    pub fn new() -> (c: Chip8)
        ensures
            c.wf(),
            c@ == Machine::power_on(),
    {
        let c = Chip8 {
            memory: [0;4096],
            registers: Registers::new(),
            stack: Vec::new(),
            screen: [false;2048],
            keyboard: [false;16],
            pending_key: None,
        };
        proof {
            let p = Machine::power_on();
            assert(c@.memory =~= p.memory);
            assert(c@.screen =~= p.screen);
            assert(c@.keyboard =~= p.keyboard);
            assert(c@.stack =~= p.stack);
        }
        c
    }

    /// Whether the invariant holds. It does for every machine that came from
    /// `new` and was changed only through the methods of this crate.
    pub fn is_well_formed(&self) -> (ok: bool)
        ensures
            ok == self.wf(),
    {
        let pending_ok = match self.pending_key {
            Some(x) => x < 16,
            None => true,
        };
        pending_ok && self.stack.len() <= 16 && self.stack.len() == self.registers.sp as usize
    }

    /// Copies the font to `0x000` and `rom` to `0x200`, and points the
    /// program counter at `0x200`. A program of more than 3584 bytes is
    /// refused. An empty program is accepted, but the program counter stays
    /// where it was: there is nothing to run.
    pub fn initialize(&mut self, rom: &[u8]) -> (res: Result<(), Chip8Error>)
        ensures
            settled(res, old(self)@, final(self)@, spec_load(old(self)@, rom@)),
            final(self).registers.sp == old(self).registers.sp,
    {
        if rom.len() > MAX_PROGRAM_SIZE {
            return Err(Chip8Error::LoadTooLarge);
        }
        let ghost before = self@;
        let mut a: usize = 0;
        while a < 80
            invariant
                a <= 80,
                self@ == (Machine { memory: self@.memory, ..before }),
                self@.memory =~= Seq::new(
                    4096,
                    |b: int|
                        if b < a {
                            font()[b]
                        } else {
                            before.memory[b]
                        },
                ),
                self.registers.sp == old(self).registers.sp,
            decreases 80 - a,
        {
            self.memory[a] = SPRITES[a];
            a = a + 1;
        }
        let mut k: usize = 0;
        while k < rom.len()
            invariant
                k <= rom.len() <= 3584,
                self@ == (Machine { memory: self@.memory, ..before }),
                self@.memory =~= Seq::new(
                    4096,
                    |b: int|
                        if b < 80 {
                            font()[b]
                        } else if 0x200 <= b < 0x200 + k {
                            rom@[b - 0x200]
                        } else {
                            before.memory[b]
                        },
                ),
                self.registers.sp == old(self).registers.sp,
            decreases rom.len() - k,
        {
            self.memory[0x200 + k] = rom[k];
            k = k + 1;
        }
        if rom.len() > 0 {
            self.registers.pc = PROGRAM_START;
        }
        assert(self@.memory =~= loaded_memory(before.memory, rom@));
        Ok(())
    }

    /// The instruction word at the program counter, high byte first. The
    /// program counter does not move. A program counter of 4094 or more is
    /// out of range.
    pub fn get_next_op(&self) -> (res: Result<u16, Chip8Error>)
        ensures
            res == spec_fetch(self@),
    {
        if self.registers.pc >= 4094 {
            return Err(Chip8Error::OutOfRange);
        }
        let index: usize = self.registers.pc as usize;
        let hi: u8 = self.memory[index];
        let lo: u8 = self.memory[index + 1];
        let opcode: u16 = ((hi as u16) << 8) | (lo as u16);
        assert(((hi as u16) << 8) | (lo as u16) == (hi as u16) * 256 + (lo as u16)) by (bit_vector);
        Ok(opcode)
    }

    /// One tick of the delay timer: down by one, never below zero.
    pub fn tick_delay(&mut self)
        ensures
            final(self)@ == (Machine { dt: ticked(old(self)@.dt), ..old(self)@ }),
            final(self).registers.sp == old(self).registers.sp,
    {
        if self.registers.dt > 0 {
            self.registers.dt = self.registers.dt - 1;
        }
    }

    /// One tick of the sound timer: down by one, never below zero.
    pub fn tick_sound(&mut self)
        ensures
            final(self)@ == (Machine { st: ticked(old(self)@.st), ..old(self)@ }),
            final(self).registers.sp == old(self).registers.sp,
    {
        if self.registers.st > 0 {
            self.registers.st = self.registers.st - 1;
        }
    }

    /// Whether the tone sounds: the sound timer is above zero.
    pub fn sound_active(&self) -> (on: bool)
        ensures
            on == (self@.st > 0),
    {
        self.registers.st > 0
    }

    /// Whether the machine is suspended until a key is pressed.
    pub fn is_waiting_for_key(&self) -> (waiting: bool)
        ensures
            waiting == self@.blocked(),
    {
        self.pending_key.is_some()
    }

    /// Tells the machine that `key` is now held (`pressed`) or released. A
    /// key that goes down while the machine waits for one is stored in the
    /// register that waits, and the machine runs again. A key above `0xF` is
    /// out of range.
    pub fn set_key(&mut self, key: u8, pressed: bool) -> (res: Result<(), Chip8Error>)
        requires
            old(self).wf(),
        ensures
            final(self).wf(),
            settled(res, old(self)@, final(self)@, spec_set_key(old(self)@, key, pressed)),
    {
        if key >= 16 {
            return Err(Chip8Error::OutOfRange);
        }
        let was_held: bool = self.keyboard[key as usize];
        self.keyboard[key as usize] = pressed;
        if pressed && !was_held {
            if let Some(x) = self.pending_key {
                self.registers.v[x as usize] = key;
                self.pending_key = None;
            }
        }
        Ok(())
    }
}

} // verus!
