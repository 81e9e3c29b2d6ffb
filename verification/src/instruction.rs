//! Instruction words and the instructions they encode.
//!
//! An instruction word is sixteen bits, read as four nibbles. The first
//! nibble selects the family; the others are operands: `x` and `y` name
//! registers, `n` is a small count, `kk` a byte, `nnn` an address.

use vstd::prelude::*;
use vstd::arithmetic::div_mod::lemma_fundamental_div_mod_converse;

verus! {

/// One decoded instruction. Register operands are kept as written in the
/// instruction word, so every instruction encodes back to the word it came
/// from.
#[derive(Clone, Copy, Debug, PartialEq, Eq)]
pub enum Instruction {
    /// `00E0`: turn every pixel off.
    ClearScreen,
    /// `00EE`: return from a subroutine.
    Return,
    /// `1nnn`: continue at `addr`.
    Jump { addr: u16 },
    /// `2nnn`: call the subroutine at `addr`.
    Call { addr: u16 },
    /// `3xkk`: skip the next instruction if `V[x] == kk`.
    SkipEqByte { x: u8, kk: u8 },
    /// `4xkk`: skip the next instruction if `V[x] != kk`.
    SkipNeByte { x: u8, kk: u8 },
    /// `5xy0`: skip the next instruction if `V[x] == V[y]`.
    SkipEqReg { x: u8, y: u8 },
    /// `6xkk`: `V[x] := kk`.
    LoadByte { x: u8, kk: u8 },
    /// `7xkk`: `V[x] := V[x] + kk`, wrapping, flag untouched.
    AddByte { x: u8, kk: u8 },
    /// `8xy0`: `V[x] := V[y]`.
    Move { x: u8, y: u8 },
    /// `8xy1`: `V[x] := V[x] | V[y]`.
    Or { x: u8, y: u8 },
    /// `8xy2`: `V[x] := V[x] & V[y]`.
    And { x: u8, y: u8 },
    /// `8xy3`: `V[x] := V[x] ^ V[y]`.
    Xor { x: u8, y: u8 },
    /// `8xy4`: `V[x] := V[x] + V[y]`, carry in `V[F]`.
    AddReg { x: u8, y: u8 },
    /// `8xy5`: `V[x] := V[x] - V[y]`, `V[F]` set when `V[x] > V[y]`.
    SubReg { x: u8, y: u8 },
    /// `8xy6`: `V[x] := V[x] >> 1`, the bit shifted out in `V[F]`.
    ShiftRight { x: u8, y: u8 },
    /// `8xy7`: `V[x] := V[y] - V[x]`, `V[F]` set when `V[y] > V[x]`.
    SubFrom { x: u8, y: u8 },
    /// `8xyE`: `V[x] := V[x] << 1`, the bit shifted out in `V[F]`.
    ShiftLeft { x: u8, y: u8 },
    /// `9xy0`: skip the next instruction if `V[x] != V[y]`.
    SkipNeReg { x: u8, y: u8 },
    /// `Annn`: `I := addr`.
    LoadIndex { addr: u16 },
    /// `Bnnn`: continue at `addr + V[0]`.
    JumpOffset { addr: u16 },
    /// `Cxkk`: `V[x] := random byte & kk`.
    Random { x: u8, kk: u8 },
    /// `Dxyn`: draw the `n`-row sprite at `I` to `(V[x], V[y])`.
    Draw { x: u8, y: u8, n: u8 },
    /// `Ex9E`: skip the next instruction if key `V[x]` is held.
    SkipKeyDown { x: u8 },
    /// `ExA1`: skip the next instruction if key `V[x]` is not held.
    SkipKeyUp { x: u8 },
    /// `Fx07`: `V[x] := delay timer`.
    ReadDelay { x: u8 },
    /// `Fx0A`: wait for a key press and store the key in `V[x]`.
    WaitKey { x: u8 },
    /// `Fx15`: `delay timer := V[x]`.
    SetDelay { x: u8 },
    /// `Fx18`: `sound timer := V[x]`.
    SetSound { x: u8 },
    /// `Fx1E`: `I := I + V[x]`, wrapping.
    AddIndex { x: u8 },
    /// `Fx29`: `I :=` address of the glyph for `V[x]`.
    LoadGlyph { x: u8 },
    /// `Fx33`: store the decimal digits of `V[x]` at `I`, `I+1`, `I+2`.
    StoreDecimal { x: u8 },
    /// `Fx55`: store `V[0..=x]` at `I`.
    StoreRegs { x: u8 },
    /// `Fx65`: load `V[0..=x]` from `I`.
    LoadRegs { x: u8 },
}

impl Instruction {
    /// Whether the operands fit their fields: register indices and counts
    /// in a nibble, addresses in twelve bits. Exactly these instructions are
    /// encoded by some instruction word.
    pub open spec fn wf(self) -> bool {
        match self {
            Instruction::ClearScreen | Instruction::Return => true,
            Instruction::Jump { addr }
            | Instruction::Call { addr }
            | Instruction::LoadIndex { addr }
            | Instruction::JumpOffset { addr } => addr < 0x1000,
            Instruction::SkipEqByte { x, kk }
            | Instruction::SkipNeByte { x, kk }
            | Instruction::LoadByte { x, kk }
            | Instruction::AddByte { x, kk }
            | Instruction::Random { x, kk } => x < 16,
            Instruction::SkipEqReg { x, y }
            | Instruction::Move { x, y }
            | Instruction::Or { x, y }
            | Instruction::And { x, y }
            | Instruction::Xor { x, y }
            | Instruction::AddReg { x, y }
            | Instruction::SubReg { x, y }
            | Instruction::ShiftRight { x, y }
            | Instruction::SubFrom { x, y }
            | Instruction::ShiftLeft { x, y }
            | Instruction::SkipNeReg { x, y } => x < 16 && y < 16,
            Instruction::Draw { x, y, n } => x < 16 && y < 16 && n < 16,
            Instruction::SkipKeyDown { x }
            | Instruction::SkipKeyUp { x }
            | Instruction::ReadDelay { x }
            | Instruction::WaitKey { x }
            | Instruction::SetDelay { x }
            | Instruction::SetSound { x }
            | Instruction::AddIndex { x }
            | Instruction::LoadGlyph { x }
            | Instruction::StoreDecimal { x }
            | Instruction::StoreRegs { x }
            | Instruction::LoadRegs { x } => x < 16,
        }
    }

    /// Whether the operands fit their fields.
    pub fn is_well_formed(self) -> (ok: bool)
        ensures
            ok == self.wf(),
    {
        match self {
            Instruction::ClearScreen | Instruction::Return => true,
            Instruction::Jump { addr }
            | Instruction::Call { addr }
            | Instruction::LoadIndex { addr }
            | Instruction::JumpOffset { addr } => addr < 0x1000,
            Instruction::SkipEqByte { x, .. }
            | Instruction::SkipNeByte { x, .. }
            | Instruction::LoadByte { x, .. }
            | Instruction::AddByte { x, .. }
            | Instruction::Random { x, .. } => x < 16,
            Instruction::SkipEqReg { x, y }
            | Instruction::Move { x, y }
            | Instruction::Or { x, y }
            | Instruction::And { x, y }
            | Instruction::Xor { x, y }
            | Instruction::AddReg { x, y }
            | Instruction::SubReg { x, y }
            | Instruction::ShiftRight { x, y }
            | Instruction::SubFrom { x, y }
            | Instruction::ShiftLeft { x, y }
            | Instruction::SkipNeReg { x, y } => x < 16 && y < 16,
            Instruction::Draw { x, y, n } => x < 16 && y < 16 && n < 16,
            Instruction::SkipKeyDown { x }
            | Instruction::SkipKeyUp { x }
            | Instruction::ReadDelay { x }
            | Instruction::WaitKey { x }
            | Instruction::SetDelay { x }
            | Instruction::SetSound { x }
            | Instruction::AddIndex { x }
            | Instruction::LoadGlyph { x }
            | Instruction::StoreDecimal { x }
            | Instruction::StoreRegs { x }
            | Instruction::LoadRegs { x } => x < 16,
        }
    }
}

/// The first nibble of an instruction word.
pub open spec fn family(opcode: u16) -> int {
    opcode as int / 0x1000
}

/// The second nibble: a register index.
pub open spec fn field_x(opcode: u16) -> u8 {
    ((opcode as int / 0x100) % 0x10) as u8
}

/// The third nibble: a register index.
pub open spec fn field_y(opcode: u16) -> u8 {
    ((opcode as int / 0x10) % 0x10) as u8
}

/// The last nibble: a small count.
pub open spec fn field_n(opcode: u16) -> u8 {
    (opcode as int % 0x10) as u8
}

/// The low byte: a literal.
pub open spec fn field_kk(opcode: u16) -> u8 {
    (opcode as int % 0x100) as u8
}

/// The low twelve bits: an address.
pub open spec fn field_nnn(opcode: u16) -> u16 {
    (opcode as int % 0x1000) as u16
}

/// The instruction that `opcode` encodes, if it encodes one.
pub open spec fn spec_decode(opcode: u16) -> Option<Instruction> {
    let x = field_x(opcode);
    let y = field_y(opcode);
    let n = field_n(opcode);
    let kk = field_kk(opcode);
    let addr = field_nnn(opcode);
    let f = family(opcode);
    if f == 0x0 {
        if opcode == 0x00E0 {
            Some(Instruction::ClearScreen)
        } else if opcode == 0x00EE {
            Some(Instruction::Return)
        } else {
            None
        }
    } else if f == 0x1 {
        Some(Instruction::Jump { addr })
    } else if f == 0x2 {
        Some(Instruction::Call { addr })
    } else if f == 0x3 {
        Some(Instruction::SkipEqByte { x, kk })
    } else if f == 0x4 {
        Some(Instruction::SkipNeByte { x, kk })
    } else if f == 0x5 {
        if n == 0 {
            Some(Instruction::SkipEqReg { x, y })
        } else {
            None
        }
    } else if f == 0x6 {
        Some(Instruction::LoadByte { x, kk })
    } else if f == 0x7 {
        Some(Instruction::AddByte { x, kk })
    } else if f == 0x8 {
        if n == 0x0 {
            Some(Instruction::Move { x, y })
        } else if n == 0x1 {
            Some(Instruction::Or { x, y })
        } else if n == 0x2 {
            Some(Instruction::And { x, y })
        } else if n == 0x3 {
            Some(Instruction::Xor { x, y })
        } else if n == 0x4 {
            Some(Instruction::AddReg { x, y })
        } else if n == 0x5 {
            Some(Instruction::SubReg { x, y })
        } else if n == 0x6 {
            Some(Instruction::ShiftRight { x, y })
        } else if n == 0x7 {
            Some(Instruction::SubFrom { x, y })
        } else if n == 0xE {
            Some(Instruction::ShiftLeft { x, y })
        } else {
            None
        }
    } else if f == 0x9 {
        if n == 0 {
            Some(Instruction::SkipNeReg { x, y })
        } else {
            None
        }
    } else if f == 0xA {
        Some(Instruction::LoadIndex { addr })
    } else if f == 0xB {
        Some(Instruction::JumpOffset { addr })
    } else if f == 0xC {
        Some(Instruction::Random { x, kk })
    } else if f == 0xD {
        Some(Instruction::Draw { x, y, n })
    } else if f == 0xE {
        if kk == 0x9E {
            Some(Instruction::SkipKeyDown { x })
        } else if kk == 0xA1 {
            Some(Instruction::SkipKeyUp { x })
        } else {
            None
        }
    } else {
        if kk == 0x07 {
            Some(Instruction::ReadDelay { x })
        } else if kk == 0x0A {
            Some(Instruction::WaitKey { x })
        } else if kk == 0x15 {
            Some(Instruction::SetDelay { x })
        } else if kk == 0x18 {
            Some(Instruction::SetSound { x })
        } else if kk == 0x1E {
            Some(Instruction::AddIndex { x })
        } else if kk == 0x29 {
            Some(Instruction::LoadGlyph { x })
        } else if kk == 0x33 {
            Some(Instruction::StoreDecimal { x })
        } else if kk == 0x55 {
            Some(Instruction::StoreRegs { x })
        } else if kk == 0x65 {
            Some(Instruction::LoadRegs { x })
        } else {
            None
        }
    }
}

/// The word made of a family nibble and three operand nibbles.
pub open spec fn word(f: int, x: int, y: int, n: int) -> u16 {
    (f * 0x1000 + x * 0x100 + y * 0x10 + n) as u16
}

/// The instruction word that encodes `instr`.
pub open spec fn spec_encode(instr: Instruction) -> u16 {
    match instr {
        Instruction::ClearScreen => 0x00E0,
        Instruction::Return => 0x00EE,
        Instruction::Jump { addr } => (0x1000 + addr) as u16,
        Instruction::Call { addr } => (0x2000 + addr) as u16,
        Instruction::SkipEqByte { x, kk } => (0x3000 + x * 0x100 + kk) as u16,
        Instruction::SkipNeByte { x, kk } => (0x4000 + x * 0x100 + kk) as u16,
        Instruction::SkipEqReg { x, y } => word(0x5, x as int, y as int, 0x0),
        Instruction::LoadByte { x, kk } => (0x6000 + x * 0x100 + kk) as u16,
        Instruction::AddByte { x, kk } => (0x7000 + x * 0x100 + kk) as u16,
        Instruction::Move { x, y } => word(0x8, x as int, y as int, 0x0),
        Instruction::Or { x, y } => word(0x8, x as int, y as int, 0x1),
        Instruction::And { x, y } => word(0x8, x as int, y as int, 0x2),
        Instruction::Xor { x, y } => word(0x8, x as int, y as int, 0x3),
        Instruction::AddReg { x, y } => word(0x8, x as int, y as int, 0x4),
        Instruction::SubReg { x, y } => word(0x8, x as int, y as int, 0x5),
        Instruction::ShiftRight { x, y } => word(0x8, x as int, y as int, 0x6),
        Instruction::SubFrom { x, y } => word(0x8, x as int, y as int, 0x7),
        Instruction::ShiftLeft { x, y } => word(0x8, x as int, y as int, 0xE),
        Instruction::SkipNeReg { x, y } => word(0x9, x as int, y as int, 0x0),
        Instruction::LoadIndex { addr } => (0xA000 + addr) as u16,
        Instruction::JumpOffset { addr } => (0xB000 + addr) as u16,
        Instruction::Random { x, kk } => (0xC000 + x * 0x100 + kk) as u16,
        Instruction::Draw { x, y, n } => word(0xD, x as int, y as int, n as int),
        Instruction::SkipKeyDown { x } => (0xE09E + x * 0x100) as u16,
        Instruction::SkipKeyUp { x } => (0xE0A1 + x * 0x100) as u16,
        Instruction::ReadDelay { x } => (0xF007 + x * 0x100) as u16,
        Instruction::WaitKey { x } => (0xF00A + x * 0x100) as u16,
        Instruction::SetDelay { x } => (0xF015 + x * 0x100) as u16,
        Instruction::SetSound { x } => (0xF018 + x * 0x100) as u16,
        Instruction::AddIndex { x } => (0xF01E + x * 0x100) as u16,
        Instruction::LoadGlyph { x } => (0xF029 + x * 0x100) as u16,
        Instruction::StoreDecimal { x } => (0xF033 + x * 0x100) as u16,
        Instruction::StoreRegs { x } => (0xF055 + x * 0x100) as u16,
        Instruction::LoadRegs { x } => (0xF065 + x * 0x100) as u16,
    }
}

/// The fields of a word made of a family nibble and an address.
proof fn lemma_word_addr(f: int, addr: u16)
    requires
        0 <= f < 0x10,
        addr < 0x1000,
    ensures
        family((f * 0x1000 + addr) as u16) == f,
        field_nnn((f * 0x1000 + addr) as u16) == addr,
{
    lemma_fundamental_div_mod_converse(f * 0x1000 + addr, 0x1000, f, addr as int);
}

/// The fields of a word made of a family nibble, a register and a byte.
proof fn lemma_word_byte(f: int, x: u8, kk: u8)
    requires
        0 <= f < 0x10,
        x < 0x10,
    ensures
        family((f * 0x1000 + x * 0x100 + kk) as u16) == f,
        field_x((f * 0x1000 + x * 0x100 + kk) as u16) == x,
        field_kk((f * 0x1000 + x * 0x100 + kk) as u16) == kk,
{
    let w = f * 0x1000 + x * 0x100 + kk;
    lemma_fundamental_div_mod_converse(w, 0x1000, f, x * 0x100 + kk);
    lemma_fundamental_div_mod_converse(w, 0x100, f * 0x10 + x, kk as int);
    lemma_fundamental_div_mod_converse(f * 0x10 + x, 0x10, f, x as int);
}

/// The fields of a word made of four nibbles.
proof fn lemma_word_nibbles(f: int, x: u8, y: u8, n: u8)
    requires
        0 <= f < 0x10,
        x < 0x10,
        y < 0x10,
        n < 0x10,
    ensures
        family(word(f, x as int, y as int, n as int)) == f,
        field_x(word(f, x as int, y as int, n as int)) == x,
        field_y(word(f, x as int, y as int, n as int)) == y,
        field_n(word(f, x as int, y as int, n as int)) == n,
{
    let w = f * 0x1000 + x * 0x100 + y * 0x10 + n;
    lemma_fundamental_div_mod_converse(w, 0x1000, f, x * 0x100 + y * 0x10 + n);
    lemma_fundamental_div_mod_converse(w, 0x100, f * 0x10 + x, y * 0x10 + n);
    lemma_fundamental_div_mod_converse(f * 0x10 + x, 0x10, f, x as int);
    lemma_fundamental_div_mod_converse(w, 0x10, f * 0x100 + x * 0x10 + y, n as int);
    lemma_fundamental_div_mod_converse(f * 0x100 + x * 0x10 + y, 0x10, f * 0x10 + x, y as int);
}

/// Every word is made of its own fields.
proof fn lemma_join(opcode: u16)
    ensures
        opcode == word(
            family(opcode),
            field_x(opcode) as int,
            field_y(opcode) as int,
            field_n(opcode) as int,
        ),
        field_kk(opcode) == field_y(opcode) * 0x10 + field_n(opcode),
        field_nnn(opcode) == field_x(opcode) * 0x100 + field_kk(opcode),
        0 <= family(opcode) < 0x10,
        field_x(opcode) < 0x10,
        field_y(opcode) < 0x10,
        field_n(opcode) < 0x10,
        field_nnn(opcode) < 0x1000,
{
    assert(opcode == (opcode / 0x1000) * 0x1000 + ((opcode / 0x100) % 0x10) * 0x100 + ((opcode
        / 0x10) % 0x10) * 0x10 + opcode % 0x10) by (bit_vector);
    assert(opcode % 0x100 == ((opcode / 0x10) % 0x10) * 0x10 + opcode % 0x10) by (bit_vector);
    assert(opcode % 0x1000 == ((opcode / 0x100) % 0x10) * 0x100 + opcode % 0x100)
        by (bit_vector);
    assert(opcode / 0x1000 < 0x10) by (bit_vector);
}

/// Decoding undoes encoding: every instruction whose operands fit their
/// fields is what its word decodes to.
pub proof fn lemma_decode_encode(instr: Instruction)
    requires
        instr.wf(),
    ensures
        spec_decode(spec_encode(instr)) == Some(instr),
{
    match instr {
        Instruction::ClearScreen => lemma_word_byte(0x0, 0, 0xE0),
        Instruction::Return => lemma_word_byte(0x0, 0, 0xEE),
        Instruction::Jump { addr } => lemma_word_addr(0x1, addr),
        Instruction::Call { addr } => lemma_word_addr(0x2, addr),
        Instruction::LoadIndex { addr } => lemma_word_addr(0xa, addr),
        Instruction::JumpOffset { addr } => lemma_word_addr(0xb, addr),
        Instruction::SkipEqByte { x, kk } => lemma_word_byte(0x3, x, kk),
        Instruction::SkipNeByte { x, kk } => lemma_word_byte(0x4, x, kk),
        Instruction::LoadByte { x, kk } => lemma_word_byte(0x6, x, kk),
        Instruction::AddByte { x, kk } => lemma_word_byte(0x7, x, kk),
        Instruction::Random { x, kk } => lemma_word_byte(0xc, x, kk),
        Instruction::SkipEqReg { x, y } => lemma_word_nibbles(0x5, x, y, 0x0),
        Instruction::Move { x, y } => lemma_word_nibbles(0x8, x, y, 0x0),
        Instruction::Or { x, y } => lemma_word_nibbles(0x8, x, y, 0x1),
        Instruction::And { x, y } => lemma_word_nibbles(0x8, x, y, 0x2),
        Instruction::Xor { x, y } => lemma_word_nibbles(0x8, x, y, 0x3),
        Instruction::AddReg { x, y } => lemma_word_nibbles(0x8, x, y, 0x4),
        Instruction::SubReg { x, y } => lemma_word_nibbles(0x8, x, y, 0x5),
        Instruction::ShiftRight { x, y } => lemma_word_nibbles(0x8, x, y, 0x6),
        Instruction::SubFrom { x, y } => lemma_word_nibbles(0x8, x, y, 0x7),
        Instruction::ShiftLeft { x, y } => lemma_word_nibbles(0x8, x, y, 0xe),
        Instruction::SkipNeReg { x, y } => lemma_word_nibbles(0x9, x, y, 0x0),
        Instruction::Draw { x, y, n } => lemma_word_nibbles(0xD, x, y, n),
        Instruction::SkipKeyDown { x } => lemma_word_byte(0xe, x, 0x9e),
        Instruction::SkipKeyUp { x } => lemma_word_byte(0xe, x, 0xa1),
        Instruction::ReadDelay { x } => lemma_word_byte(0xf, x, 0x7),
        Instruction::WaitKey { x } => lemma_word_byte(0xf, x, 0xa),
        Instruction::SetDelay { x } => lemma_word_byte(0xf, x, 0x15),
        Instruction::SetSound { x } => lemma_word_byte(0xf, x, 0x18),
        Instruction::AddIndex { x } => lemma_word_byte(0xf, x, 0x1e),
        Instruction::LoadGlyph { x } => lemma_word_byte(0xf, x, 0x29),
        Instruction::StoreDecimal { x } => lemma_word_byte(0xf, x, 0x33),
        Instruction::StoreRegs { x } => lemma_word_byte(0xf, x, 0x55),
        Instruction::LoadRegs { x } => lemma_word_byte(0xf, x, 0x65),
    }
}

/// Encoding undoes decoding: a word decodes to at most one instruction,
/// whose operands fit their fields and which encodes to that word.
pub proof fn lemma_encode_decode(opcode: u16)
    ensures
        spec_decode(opcode) matches Some(instr) ==> instr.wf() && spec_encode(instr) == opcode,
{
    lemma_join(opcode);
}

/// Bit masks and shifts pick out the nibbles of an instruction word.
pub proof fn lemma_fields_by_mask(opcode: u16)
    ensures
        (opcode >> 12) as int == family(opcode),
        ((opcode & 0x0F00) >> 8) as u8 == field_x(opcode),
        ((opcode & 0x00F0) >> 4) as u8 == field_y(opcode),
        (opcode & 0x000F) as u8 == field_n(opcode),
        (opcode & 0x00FF) as u8 == field_kk(opcode),
        (opcode & 0x0FFF) == field_nnn(opcode),
        field_x(opcode) < 16,
        field_y(opcode) < 16,
        field_n(opcode) < 16,
        field_nnn(opcode) < 0x1000,
        0 <= family(opcode) < 16,
{
    assert((opcode >> 12) == opcode / 0x1000) by (bit_vector);
    assert(((opcode & 0x0F00) >> 8) == (opcode / 0x100) % 0x10) by (bit_vector);
    assert(((opcode & 0x00F0) >> 4) == (opcode / 0x10) % 0x10) by (bit_vector);
    assert((opcode & 0x000F) == opcode % 0x10) by (bit_vector);
    assert((opcode & 0x00FF) == opcode % 0x100) by (bit_vector);
    assert((opcode & 0x0FFF) == opcode % 0x1000) by (bit_vector);
}

/// Decodes an instruction word. `None` means that the word matches no
/// instruction.
pub fn decode(opcode: u16) -> (instr: Option<Instruction>)
    ensures
        instr == spec_decode(opcode),
        instr matches Some(i) ==> i.wf(),
{
    proof {
        lemma_fields_by_mask(opcode);
    }
    let x: u8 = ((opcode & 0x0F00) >> 8) as u8;
    let y: u8 = ((opcode & 0x00F0) >> 4) as u8;
    let n: u8 = (opcode & 0x000F) as u8;
    let kk: u8 = (opcode & 0x00FF) as u8;
    let addr: u16 = opcode & 0x0FFF;
    let f: u16 = opcode >> 12;
    match f {
        0x0 => match opcode {
            0x00E0 => Some(Instruction::ClearScreen),
            0x00EE => Some(Instruction::Return),
            _ => None,
        },
        0x1 => Some(Instruction::Jump { addr }),
        0x2 => Some(Instruction::Call { addr }),
        0x3 => Some(Instruction::SkipEqByte { x, kk }),
        0x4 => Some(Instruction::SkipNeByte { x, kk }),
        0x5 => match n {
            0x0 => Some(Instruction::SkipEqReg { x, y }),
            _ => None,
        },
        0x6 => Some(Instruction::LoadByte { x, kk }),
        0x7 => Some(Instruction::AddByte { x, kk }),
        0x8 => match n {
            0x0 => Some(Instruction::Move { x, y }),
            0x1 => Some(Instruction::Or { x, y }),
            0x2 => Some(Instruction::And { x, y }),
            0x3 => Some(Instruction::Xor { x, y }),
            0x4 => Some(Instruction::AddReg { x, y }),
            0x5 => Some(Instruction::SubReg { x, y }),
            0x6 => Some(Instruction::ShiftRight { x, y }),
            0x7 => Some(Instruction::SubFrom { x, y }),
            0xE => Some(Instruction::ShiftLeft { x, y }),
            _ => None,
        },
        0x9 => match n {
            0x0 => Some(Instruction::SkipNeReg { x, y }),
            _ => None,
        },
        0xA => Some(Instruction::LoadIndex { addr }),
        0xB => Some(Instruction::JumpOffset { addr }),
        0xC => Some(Instruction::Random { x, kk }),
        0xD => Some(Instruction::Draw { x, y, n }),
        0xE => match kk {
            0x9E => Some(Instruction::SkipKeyDown { x }),
            0xA1 => Some(Instruction::SkipKeyUp { x }),
            _ => None,
        },
        _ => match kk {
            0x07 => Some(Instruction::ReadDelay { x }),
            0x0A => Some(Instruction::WaitKey { x }),
            0x15 => Some(Instruction::SetDelay { x }),
            0x18 => Some(Instruction::SetSound { x }),
            0x1E => Some(Instruction::AddIndex { x }),
            0x29 => Some(Instruction::LoadGlyph { x }),
            0x33 => Some(Instruction::StoreDecimal { x }),
            0x55 => Some(Instruction::StoreRegs { x }),
            0x65 => Some(Instruction::LoadRegs { x }),
            _ => None,
        },
    }
}

} // verus!
