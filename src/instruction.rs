use vstd::prelude::*;

use crate::error::CPUError;

verus! {

/// One decoded CHIP-8 instruction. `x` and `y` name general-purpose registers,
/// `nnn` is a 12-bit address, `kk` an 8-bit immediate and `n` a sprite height.
#[derive(Debug, PartialEq, Eq, Structural, Clone, Copy)]
pub enum Instruction {
    /// 0nnn other than 00E0 and 00EE: a native routine call, not carried out.
    NoOp,
    /// 00E0: clear the screen.
    ClearScreen,
    /// 00EE: return from a subroutine.
    Return,
    /// 1nnn: PC = nnn.
    Jump(u16),
    /// 2nnn: push PC, then PC = nnn.
    Call(u16),
    /// 3xkk: skip the next instruction if Vx == kk.
    SkipVxEqual(u8, u8),
    /// 4xkk: skip the next instruction if Vx != kk.
    SkipVxNotEqual(u8, u8),
    /// 5xy0: skip the next instruction if Vx == Vy.
    SkipEqual(u8, u8),
    /// 6xkk: Vx = kk.
    LoadVx(u8, u8),
    /// 7xkk: Vx += kk, wrapping, VF untouched.
    AddVx(u8, u8),
    /// 8xy0: Vx = Vy.
    SetRegister(u8, u8),
    /// 8xy1: Vx |= Vy.
    Or(u8, u8),
    /// 8xy2: Vx &= Vy.
    And(u8, u8),
    /// 8xy3: Vx ^= Vy.
    Xor(u8, u8),
    /// 8xy4: Vx += Vy, wrapping; VF = carry.
    Add(u8, u8),
    /// 8xy5: Vx -= Vy, wrapping; VF = no borrow.
    Sub(u8, u8),
    /// 8xy6: Vx >>= 1; VF = the bit shifted out.
    ShiftRightVx(u8),
    /// 8xy7: Vx = Vy - Vx, wrapping; VF = no borrow.
    SubN(u8, u8),
    /// 8xyE: Vx <<= 1, wrapping; VF = the bit shifted out.
    ShiftLeftVx(u8),
    /// 9xy0: skip the next instruction if Vx != Vy.
    SkipNotEqual(u8, u8),
    /// Annn: I = nnn.
    LoadI(u16),
    /// Bnnn: PC = nnn + Vx (x is the high nibble of nnn).
    JumpOffset(u8, u16),
    /// Cxkk: Vx = random byte & kk.
    Rand(u8, u8),
    /// Dxyn: draw the n-byte sprite at I at (Vx, Vy); VF = collision.
    DrawSprite(u8, u8, u8),
    /// Ex9E: skip the next instruction if key Vx is pressed.
    SkipIfKey(u8),
    /// ExA1: skip the next instruction if key Vx is not pressed.
    SkipIfNotKey(u8),
    /// Fx07: Vx = delay timer.
    LoadDelay(u8),
    /// Fx0A: wait for a key press and store its index in Vx.
    WaitForKey(u8),
    /// Fx15: delay timer = Vx.
    SetDelay(u8),
    /// Fx18: sound timer = Vx.
    SetSound(u8),
    /// Fx1E: I += Vx, kept to 12 bits; VF = whether it overflowed.
    AddToIndex(u8),
    /// Fx29: I = address of the glyph of digit Vx.
    LoadDigit(u8),
    /// Fx33: the decimal digits of Vx at I, I+1, I+2.
    LoadBCD(u8),
    /// Fx55: memory[I..=I+x] = V0..=Vx.
    SaveMem(u8),
    /// Fx65: V0..=Vx = memory[I..=I+x].
    LoadMem(u8),
}

/// The top nibble of an opcode: its instruction family.
pub open spec fn family(op: u16) -> u8 {
    (op / 0x1000) as u8
}

/// The second nibble of an opcode.
pub open spec fn nibble_x(op: u16) -> u8 {
    ((op / 0x100) % 0x10) as u8
}

/// The third nibble of an opcode.
pub open spec fn nibble_y(op: u16) -> u8 {
    ((op / 0x10) % 0x10) as u8
}

/// The lowest nibble of an opcode.
pub open spec fn nibble_n(op: u16) -> u8 {
    (op % 0x10) as u8
}

/// The low twelve bits of an opcode.
pub open spec fn address_of(op: u16) -> u16 {
    (op % 0x1000) as u16
}

/// The low byte of an opcode.
pub open spec fn immediate_of(op: u16) -> u8 {
    (op % 0x100) as u8
}

/// The instruction that a 16-bit word encodes, following the standard
/// CHIP-8 opcode table, or `InvalidOpcode` where it encodes none.
pub open spec fn decode(op: u16) -> Result<Instruction, CPUError> {
    let f = family(op);
    let x = nibble_x(op);
    let y = nibble_y(op);
    let n = nibble_n(op);
    let nnn = address_of(op);
    let kk = immediate_of(op);
    if op == 0x00E0 {
        Ok(Instruction::ClearScreen)
    } else if op == 0x00EE {
        Ok(Instruction::Return)
    } else if f == 0x0 {
        Ok(Instruction::NoOp)
    } else if f == 0x1 {
        Ok(Instruction::Jump(nnn))
    } else if f == 0x2 {
        Ok(Instruction::Call(nnn))
    } else if f == 0x3 {
        Ok(Instruction::SkipVxEqual(x, kk))
    } else if f == 0x4 {
        Ok(Instruction::SkipVxNotEqual(x, kk))
    } else if f == 0x5 && n == 0x0 {
        Ok(Instruction::SkipEqual(x, y))
    } else if f == 0x6 {
        Ok(Instruction::LoadVx(x, kk))
    } else if f == 0x7 {
        Ok(Instruction::AddVx(x, kk))
    } else if f == 0x8 && n == 0x0 {
        Ok(Instruction::SetRegister(x, y))
    } else if f == 0x8 && n == 0x1 {
        Ok(Instruction::Or(x, y))
    } else if f == 0x8 && n == 0x2 {
        Ok(Instruction::And(x, y))
    } else if f == 0x8 && n == 0x3 {
        Ok(Instruction::Xor(x, y))
    } else if f == 0x8 && n == 0x4 {
        Ok(Instruction::Add(x, y))
    } else if f == 0x8 && n == 0x5 {
        Ok(Instruction::Sub(x, y))
    } else if f == 0x8 && n == 0x6 {
        Ok(Instruction::ShiftRightVx(x))
    } else if f == 0x8 && n == 0x7 {
        Ok(Instruction::SubN(x, y))
    } else if f == 0x8 && n == 0xE {
        Ok(Instruction::ShiftLeftVx(x))
    } else if f == 0x9 && n == 0x0 {
        Ok(Instruction::SkipNotEqual(x, y))
    } else if f == 0xA {
        Ok(Instruction::LoadI(nnn))
    } else if f == 0xB {
        Ok(Instruction::JumpOffset(x, nnn))
    } else if f == 0xC {
        Ok(Instruction::Rand(x, kk))
    } else if f == 0xD {
        Ok(Instruction::DrawSprite(x, y, n))
    } else if f == 0xE && kk == 0x9E {
        Ok(Instruction::SkipIfKey(x))
    } else if f == 0xE && kk == 0xA1 {
        Ok(Instruction::SkipIfNotKey(x))
    } else if f == 0xF && kk == 0x07 {
        Ok(Instruction::LoadDelay(x))
    } else if f == 0xF && kk == 0x0A {
        Ok(Instruction::WaitForKey(x))
    } else if f == 0xF && kk == 0x15 {
        Ok(Instruction::SetDelay(x))
    } else if f == 0xF && kk == 0x18 {
        Ok(Instruction::SetSound(x))
    } else if f == 0xF && kk == 0x1E {
        Ok(Instruction::AddToIndex(x))
    } else if f == 0xF && kk == 0x29 {
        Ok(Instruction::LoadDigit(x))
    } else if f == 0xF && kk == 0x33 {
        Ok(Instruction::LoadBCD(x))
    } else if f == 0xF && kk == 0x55 {
        Ok(Instruction::SaveMem(x))
    } else if f == 0xF && kk == 0x65 {
        Ok(Instruction::LoadMem(x))
    } else {
        Err(CPUError::InvalidOpcode(op))
    }
}

impl Instruction {
    /// Every operand lies in the range that its field of the opcode can hold:
    /// registers, heights and nibbles below 16, addresses below 0x1000.
    pub open spec fn operands_fit(self) -> bool {
        match self {
            Instruction::Jump(nnn) | Instruction::Call(nnn) | Instruction::LoadI(nnn) => nnn
                < 0x1000,
            Instruction::SkipVxEqual(x, _)
            | Instruction::SkipVxNotEqual(x, _)
            | Instruction::LoadVx(x, _)
            | Instruction::AddVx(x, _)
            | Instruction::Rand(x, _) => x < 0x10,
            Instruction::SkipEqual(x, y)
            | Instruction::SetRegister(x, y)
            | Instruction::Or(x, y)
            | Instruction::And(x, y)
            | Instruction::Xor(x, y)
            | Instruction::Add(x, y)
            | Instruction::Sub(x, y)
            | Instruction::SubN(x, y)
            | Instruction::SkipNotEqual(x, y) => x < 0x10 && y < 0x10,
            Instruction::JumpOffset(x, nnn) => x < 0x10 && nnn < 0x1000 && nnn / 0x100 == x,
            Instruction::DrawSprite(x, y, n) => x < 0x10 && y < 0x10 && n < 0x10,
            Instruction::ShiftRightVx(x)
            | Instruction::ShiftLeftVx(x)
            | Instruction::SkipIfKey(x)
            | Instruction::SkipIfNotKey(x)
            | Instruction::LoadDelay(x)
            | Instruction::WaitForKey(x)
            | Instruction::SetDelay(x)
            | Instruction::SetSound(x)
            | Instruction::AddToIndex(x)
            | Instruction::LoadDigit(x)
            | Instruction::LoadBCD(x)
            | Instruction::SaveMem(x)
            | Instruction::LoadMem(x) => x < 0x10,
            Instruction::NoOp | Instruction::ClearScreen | Instruction::Return => true,
        }
    }

    /// The canonical opcode of an instruction; don't-care nibbles are zero.
    pub open spec fn encode(self) -> int {
        match self {
            Instruction::NoOp => 0x0000,
            Instruction::ClearScreen => 0x00E0,
            Instruction::Return => 0x00EE,
            Instruction::Jump(nnn) => 0x1000 + nnn,
            Instruction::Call(nnn) => 0x2000 + nnn,
            Instruction::SkipVxEqual(x, kk) => 0x3000 + x * 0x100 + kk,
            Instruction::SkipVxNotEqual(x, kk) => 0x4000 + x * 0x100 + kk,
            Instruction::SkipEqual(x, y) => 0x5000 + x * 0x100 + y * 0x10,
            Instruction::LoadVx(x, kk) => 0x6000 + x * 0x100 + kk,
            Instruction::AddVx(x, kk) => 0x7000 + x * 0x100 + kk,
            Instruction::SetRegister(x, y) => 0x8000 + x * 0x100 + y * 0x10,
            Instruction::Or(x, y) => 0x8001 + x * 0x100 + y * 0x10,
            Instruction::And(x, y) => 0x8002 + x * 0x100 + y * 0x10,
            Instruction::Xor(x, y) => 0x8003 + x * 0x100 + y * 0x10,
            Instruction::Add(x, y) => 0x8004 + x * 0x100 + y * 0x10,
            Instruction::Sub(x, y) => 0x8005 + x * 0x100 + y * 0x10,
            Instruction::ShiftRightVx(x) => 0x8006 + x * 0x100,
            Instruction::SubN(x, y) => 0x8007 + x * 0x100 + y * 0x10,
            Instruction::ShiftLeftVx(x) => 0x800E + x * 0x100,
            Instruction::SkipNotEqual(x, y) => 0x9000 + x * 0x100 + y * 0x10,
            Instruction::LoadI(nnn) => 0xA000 + nnn,
            Instruction::JumpOffset(_, nnn) => 0xB000 + nnn,
            Instruction::Rand(x, kk) => 0xC000 + x * 0x100 + kk,
            Instruction::DrawSprite(x, y, n) => 0xD000 + x * 0x100 + y * 0x10 + n,
            Instruction::SkipIfKey(x) => 0xE09E + x * 0x100,
            Instruction::SkipIfNotKey(x) => 0xE0A1 + x * 0x100,
            Instruction::LoadDelay(x) => 0xF007 + x * 0x100,
            Instruction::WaitForKey(x) => 0xF00A + x * 0x100,
            Instruction::SetDelay(x) => 0xF015 + x * 0x100,
            Instruction::SetSound(x) => 0xF018 + x * 0x100,
            Instruction::AddToIndex(x) => 0xF01E + x * 0x100,
            Instruction::LoadDigit(x) => 0xF029 + x * 0x100,
            Instruction::LoadBCD(x) => 0xF033 + x * 0x100,
            Instruction::SaveMem(x) => 0xF055 + x * 0x100,
            Instruction::LoadMem(x) => 0xF065 + x * 0x100,
        }
    }
}

/// Every instruction whose operands fit their fields is what its canonical
/// opcode decodes to: each documented encoding is recognised as its variant.
pub proof fn lemma_decode_encode(i: Instruction)
    requires
        i.operands_fit(),
    ensures
        0 <= i.encode() < 0x10000,
        decode(i.encode() as u16) == Ok::<Instruction, CPUError>(i),
{
    match i {
        Instruction::Jump(nnn) | Instruction::Call(nnn) | Instruction::LoadI(nnn) => {
            lemma_address_parts(nnn);
            lemma_fields(0, nnn / 0x100, (nnn / 0x10) % 0x10, nnn % 0x10);
            lemma_fields(1, nnn / 0x100, (nnn / 0x10) % 0x10, nnn % 0x10);
            lemma_fields(2, nnn / 0x100, (nnn / 0x10) % 0x10, nnn % 0x10);
            lemma_fields(0xA, nnn / 0x100, (nnn / 0x10) % 0x10, nnn % 0x10);
        },
        Instruction::JumpOffset(x, nnn) => {
            lemma_address_parts(nnn);
            lemma_fields(0xB, nnn / 0x100, (nnn / 0x10) % 0x10, nnn % 0x10);
        },
        Instruction::SkipVxEqual(x, kk)
        | Instruction::SkipVxNotEqual(x, kk)
        | Instruction::LoadVx(x, kk)
        | Instruction::AddVx(x, kk)
        | Instruction::Rand(x, kk) => {
            lemma_immediate_parts(kk);
            let (y, n) = ((kk / 0x10) as u16, (kk % 0x10) as u16);
            lemma_fields(3, x as u16, y, n);
            lemma_fields(4, x as u16, y, n);
            lemma_fields(6, x as u16, y, n);
            lemma_fields(7, x as u16, y, n);
            lemma_fields(0xC, x as u16, y, n);
        },
        Instruction::SkipEqual(x, y) => lemma_fields(5, x as u16, y as u16, 0),
        Instruction::SetRegister(x, y) => lemma_fields(8, x as u16, y as u16, 0),
        Instruction::Or(x, y) => lemma_fields(8, x as u16, y as u16, 1),
        Instruction::And(x, y) => lemma_fields(8, x as u16, y as u16, 2),
        Instruction::Xor(x, y) => lemma_fields(8, x as u16, y as u16, 3),
        Instruction::Add(x, y) => lemma_fields(8, x as u16, y as u16, 4),
        Instruction::Sub(x, y) => lemma_fields(8, x as u16, y as u16, 5),
        Instruction::ShiftRightVx(x) => lemma_fields(8, x as u16, 0, 6),
        Instruction::SubN(x, y) => lemma_fields(8, x as u16, y as u16, 7),
        Instruction::ShiftLeftVx(x) => lemma_fields(8, x as u16, 0, 0xE),
        Instruction::SkipNotEqual(x, y) => lemma_fields(9, x as u16, y as u16, 0),
        Instruction::DrawSprite(x, y, n) => lemma_fields(0xD, x as u16, y as u16, n as u16),
        Instruction::SkipIfKey(x) => lemma_fields(0xE, x as u16, 9, 0xE),
        Instruction::SkipIfNotKey(x) => lemma_fields(0xE, x as u16, 0xA, 1),
        Instruction::LoadDelay(x) => lemma_fields(0xF, x as u16, 0, 7),
        Instruction::WaitForKey(x) => lemma_fields(0xF, x as u16, 0, 0xA),
        Instruction::SetDelay(x) => lemma_fields(0xF, x as u16, 1, 5),
        Instruction::SetSound(x) => lemma_fields(0xF, x as u16, 1, 8),
        Instruction::AddToIndex(x) => lemma_fields(0xF, x as u16, 1, 0xE),
        Instruction::LoadDigit(x) => lemma_fields(0xF, x as u16, 2, 9),
        Instruction::LoadBCD(x) => lemma_fields(0xF, x as u16, 3, 3),
        Instruction::SaveMem(x) => lemma_fields(0xF, x as u16, 5, 5),
        Instruction::LoadMem(x) => lemma_fields(0xF, x as u16, 6, 5),
        Instruction::NoOp | Instruction::ClearScreen | Instruction::Return => {},
    }
}

/// The fields of a word assembled from four nibbles are those nibbles.
proof fn lemma_fields(f: u16, x: u16, y: u16, n: u16)
    requires
        f < 0x10,
        x < 0x10,
        y < 0x10,
        n < 0x10,
    ensures
        ({
            let op = (f * 0x1000 + x * 0x100 + y * 0x10 + n) as u16;
            &&& f * 0x1000 + x * 0x100 + y * 0x10 + n < 0x10000
            &&& family(op) == f
            &&& nibble_x(op) == x
            &&& nibble_y(op) == y
            &&& nibble_n(op) == n
            &&& address_of(op) == x * 0x100 + y * 0x10 + n
            &&& immediate_of(op) == y * 0x10 + n
        }),
{
    let op = (f * 0x1000 + x * 0x100 + y * 0x10 + n) as u16;
    assert(f * 0x1000 + x * 0x100 + y * 0x10 + n < 0x10000) by (nonlinear_arith)
        requires
            f < 0x10,
            x < 0x10,
            y < 0x10,
            n < 0x10,
    ;
    assert(op / 0x1000 == f && (op / 0x100) % 0x10 == x && (op / 0x10) % 0x10 == y && op % 0x10
        == n && op % 0x1000 == x * 0x100 + y * 0x10 + n && op % 0x100 == y * 0x10 + n)
        by (bit_vector)
        requires
            op == f * 0x1000 + x * 0x100 + y * 0x10 + n,
            f < 0x10,
            x < 0x10,
            y < 0x10,
            n < 0x10,
    ;
}

/// A 12-bit address is the sum of its three nibbles.
proof fn lemma_address_parts(nnn: u16)
    requires
        nnn < 0x1000,
    ensures
        nnn == (nnn / 0x100) * 0x100 + ((nnn / 0x10) % 0x10) * 0x10 + nnn % 0x10,
        nnn / 0x100 < 0x10,
{
}

/// A byte is the sum of its two nibbles.
proof fn lemma_immediate_parts(kk: u8)
    ensures
        kk == (kk / 0x10) * 0x10 + kk % 0x10,
        kk / 0x10 < 0x10,
{
}

/// Decoding fails exactly with `InvalidOpcode` of the word itself, and what it
/// accepts has operands that fit their fields.
pub proof fn lemma_decode_outcomes(op: u16)
    ensures
        decode(op) matches Ok(i) ==> i.operands_fit(),
        decode(op) matches Err(e) ==> e == CPUError::InvalidOpcode(op),
{
}

impl TryFrom<u16> for Instruction {
    type Error = CPUError;

    fn try_from(value: u16) -> (r: Result<Instruction, CPUError>)
        ensures
            r == decode(value),
    {
        assert(((value & 0xF000) >> 12) == value / 0x1000 && ((value & 0x0F00) >> 8) == (value
            / 0x100) % 0x10 && ((value & 0x00F0) >> 4) == (value / 0x10) % 0x10 && (value
            & 0x000F) == value % 0x10 && (value & 0x0FFF) == value % 0x1000 && (value & 0x00FF)
            == value % 0x100) by (bit_vector);
        let nibbles = (
            ((value & 0xF000) >> 12) as u8,
            ((value & 0x0F00) >> 8) as u8,
            ((value & 0x00F0) >> 4) as u8,
            (value & 0x000F) as u8,
        );
        let nnn = value & 0x0FFF;
        let kk = (value & 0x00FF) as u8;

        match nibbles {
            (0x0, 0x0, 0xE, 0x0) => Ok(Instruction::ClearScreen),
            (0x0, 0x0, 0xE, 0xE) => Ok(Instruction::Return),
            (0x0, _, _, _) => Ok(Instruction::NoOp),
            (0x1, _, _, _) => Ok(Instruction::Jump(nnn)),
            (0x2, _, _, _) => Ok(Instruction::Call(nnn)),
            (0x3, x, _, _) => Ok(Instruction::SkipVxEqual(x, kk)),
            (0x4, x, _, _) => Ok(Instruction::SkipVxNotEqual(x, kk)),
            (0x5, x, y, 0x0) => Ok(Instruction::SkipEqual(x, y)),
            (0x6, x, _, _) => Ok(Instruction::LoadVx(x, kk)),
            (0x7, x, _, _) => Ok(Instruction::AddVx(x, kk)),
            (0x8, x, y, 0x0) => Ok(Instruction::SetRegister(x, y)),
            (0x8, x, y, 0x1) => Ok(Instruction::Or(x, y)),
            (0x8, x, y, 0x2) => Ok(Instruction::And(x, y)),
            (0x8, x, y, 0x3) => Ok(Instruction::Xor(x, y)),
            (0x8, x, y, 0x4) => Ok(Instruction::Add(x, y)),
            (0x8, x, y, 0x5) => Ok(Instruction::Sub(x, y)),
            (0x8, x, _, 0x6) => Ok(Instruction::ShiftRightVx(x)),
            (0x8, x, y, 0x7) => Ok(Instruction::SubN(x, y)),
            (0x8, x, _, 0xE) => Ok(Instruction::ShiftLeftVx(x)),
            (0x9, x, y, 0x0) => Ok(Instruction::SkipNotEqual(x, y)),
            (0xA, _, _, _) => Ok(Instruction::LoadI(nnn)),
            (0xB, x, _, _) => Ok(Instruction::JumpOffset(x, nnn)),
            (0xC, x, _, _) => Ok(Instruction::Rand(x, kk)),
            (0xD, x, y, n) => Ok(Instruction::DrawSprite(x, y, n)),
            (0xE, x, 0x9, 0xE) => Ok(Instruction::SkipIfKey(x)),
            (0xE, x, 0xA, 0x1) => Ok(Instruction::SkipIfNotKey(x)),
            (0xF, x, 0x0, 0x7) => Ok(Instruction::LoadDelay(x)),
            (0xF, x, 0x0, 0xA) => Ok(Instruction::WaitForKey(x)),
            (0xF, x, 0x1, 0x5) => Ok(Instruction::SetDelay(x)),
            (0xF, x, 0x1, 0x8) => Ok(Instruction::SetSound(x)),
            (0xF, x, 0x1, 0xE) => Ok(Instruction::AddToIndex(x)),
            (0xF, x, 0x2, 0x9) => Ok(Instruction::LoadDigit(x)),
            (0xF, x, 0x3, 0x3) => Ok(Instruction::LoadBCD(x)),
            (0xF, x, 0x5, 0x5) => Ok(Instruction::SaveMem(x)),
            (0xF, x, 0x6, 0x5) => Ok(Instruction::LoadMem(x)),
            _ => Err(CPUError::InvalidOpcode(value)),
        }
    }
}

impl vstd::std_specs::convert::TryFromSpecImpl<u16> for Instruction {
    open spec fn obeys_try_from_spec() -> bool {
        true
    }

    open spec fn try_from_spec(v: u16) -> Result<Instruction, CPUError> {
        decode(v)
    }
}

} // verus!
