//! Decoding of the two-byte CHIP-8 opcodes into structured instructions.
//!
//! An opcode is described by its four nibbles. The operand fields are
//! `x` (bits 8-11), `y` (bits 4-7), `n` (bits 0-3), `kk` (bits 0-7) and
//! `nnn` (bits 0-11); dispatch is on the top nibble, with the groups
//! `0x0___`, `0x8___`, `0xE___` and `0xF___` dispatching further on the low
//! byte or low nibble. Every bit pattern outside the closed instruction set
//! is a decode error: the machine has no recoverable unknown-opcode case.

use vstd::prelude::*;

verus! {

/// A fatal execution fault. The architecture defines no recovery from any of
/// these: the host is expected to stop the machine and report a corrupt or
/// malicious program.
#[derive(Clone, Copy, Debug, PartialEq, Eq, Structural)]
pub enum Fault {
    /// A return was executed with an empty call stack.
    StackUnderflow,
    /// The fetched bit pattern matches no instruction.
    UnknownOpcode,
    /// A program image too large for the memory above `0x200` was loaded.
    ProgramTooLarge,
}

/// One decoded instruction. Register operands `x` and `y` are below 16,
/// immediate `kk` is a byte, sprite height `n` is below 16 and address `nnn`
/// is below 4096.
#[derive(Clone, Copy, Debug, PartialEq, Eq, Structural)]
pub enum Instr {
    /// `00E0`: clear the display.
    Cls,
    /// `00EE`: pop the call stack into the program counter.
    Ret,
    /// `1nnn`: jump.
    Jp(u16),
    /// `2nnn`: push the program counter, then jump.
    Call(u16),
    /// `3xkk`: skip the next instruction if `Vx == kk`.
    SeByte(u8, u8),
    /// `4xkk`: skip the next instruction if `Vx != kk`.
    SneByte(u8, u8),
    /// `5xy0`: skip the next instruction if `Vx == Vy`.
    SeReg(u8, u8),
    /// `6xkk`: `Vx = kk`.
    LdByte(u8, u8),
    /// `7xkk`: `Vx = (Vx + kk) mod 256`, no flag written.
    AddByte(u8, u8),
    /// `8xy0`: `Vx = Vy`.
    MovReg(u8, u8),
    /// `8xy1`: `Vx |= Vy`.
    OrReg(u8, u8),
    /// `8xy2`: `Vx &= Vy`.
    AndReg(u8, u8),
    /// `8xy3`: `Vx ^= Vy`.
    XorReg(u8, u8),
    /// `8xy4`: `Vx = (Vx + Vy) mod 256`, `VF` = carry.
    AddReg(u8, u8),
    /// `8xy5`: `Vx = (Vx - Vy) mod 256`, `VF` = 1 iff `Vx > Vy` beforehand.
    SubReg(u8, u8),
    /// `8xy6`: `VF` = 1 iff `Vx >= 128` beforehand, then `Vx >>= 1`.
    ShrReg(u8),
    /// `8xy7`: `Vx = (Vy - Vx) mod 256`, `VF` = 1 iff `Vy > Vx` beforehand.
    SubnReg(u8, u8),
    /// `8xyE`: `VF` = 1 iff `Vx >= 128` beforehand, then `Vx = (2 Vx) mod 256`.
    ShlReg(u8),
    /// `9xy0`: skip the next instruction if `Vx != Vy`.
    SneReg(u8, u8),
    /// `Annn`: `I = nnn`.
    LdI(u16),
    /// `Bnnn`: jump to `nnn + V0`.
    JpV0(u16),
    /// `Cxkk`: `Vx` = random byte AND `kk`.
    Rnd(u8, u8),
    /// `Dxyn`: XOR the `n`-byte sprite at `I` onto the display at `(Vx, Vy)`,
    /// `VF` = 1 iff a lit pixel was erased.
    Drw(u8, u8, u8),
    /// `Ex9E`: skip the next instruction if key `Vx` is held.
    SkipKey(u8),
    /// `ExA1`: skip the next instruction if key `Vx` is not held.
    SkipNoKey(u8),
    /// `Fx07`: `Vx` = delay timer.
    ReadDelay(u8),
    /// `Fx0A`: suspend until a key is pressed, then `Vx` = that key.
    WaitKey(u8),
    /// `Fx15`: delay timer = `Vx`.
    SetDelay(u8),
    /// `Fx18`: sound timer = `Vx`.
    SetSound(u8),
    /// `Fx1E`: `I = (I + Vx) mod 4096`.
    AddI(u8),
    /// `Fx29`: `I` = address of the glyph for digit `Vx`, five bytes each.
    LdGlyph(u8),
    /// `Fx33`: write the decimal digits of `Vx` at `I`, `I+1`, `I+2`.
    Bcd(u8),
    /// `Fx55`: store `V0..=Vx` at `I`.
    StoreRegs(u8),
    /// `Fx65`: load `V0..=Vx` from `I`.
    LoadRegs(u8),
}

/// Operand field `x`: bits 8-11 of the opcode.
pub open spec fn spec_x(op: u16) -> u8 {
    ((op / 256) % 16) as u8
}

/// Operand field `y`: bits 4-7 of the opcode.
pub open spec fn spec_y(op: u16) -> u8 {
    ((op / 16) % 16) as u8
}

/// Operand field `n`: bits 0-3 of the opcode.
pub open spec fn spec_n(op: u16) -> u8 {
    (op % 16) as u8
}

/// Operand field `kk`: bits 0-7 of the opcode.
pub open spec fn spec_kk(op: u16) -> u8 {
    (op % 256) as u8
}

/// Operand field `nnn`: bits 0-11 of the opcode.
pub open spec fn spec_nnn(op: u16) -> u16 {
    op % 4096
}

/// What an opcode decodes to, if anything.
pub open spec fn spec_decode(op: u16) -> Option<Instr> {
    let x = spec_x(op);
    let y = spec_y(op);
    let n = spec_n(op);
    let kk = spec_kk(op);
    let nnn = spec_nnn(op);
    if op == 0x00E0 {
        Some(Instr::Cls)
    } else if op == 0x00EE {
        Some(Instr::Ret)
    } else {
        match op / 4096 {
            1 => Some(Instr::Jp(nnn)),
            2 => Some(Instr::Call(nnn)),
            3 => Some(Instr::SeByte(x, kk)),
            4 => Some(Instr::SneByte(x, kk)),
            5 => if n == 0 {
                Some(Instr::SeReg(x, y))
            } else {
                None
            },
            6 => Some(Instr::LdByte(x, kk)),
            7 => Some(Instr::AddByte(x, kk)),
            8 => match n {
                0 => Some(Instr::MovReg(x, y)),
                1 => Some(Instr::OrReg(x, y)),
                2 => Some(Instr::AndReg(x, y)),
                3 => Some(Instr::XorReg(x, y)),
                4 => Some(Instr::AddReg(x, y)),
                5 => Some(Instr::SubReg(x, y)),
                6 => Some(Instr::ShrReg(x)),
                7 => Some(Instr::SubnReg(x, y)),
                14 => Some(Instr::ShlReg(x)),
                _ => None,
            },
            9 => if n == 0 {
                Some(Instr::SneReg(x, y))
            } else {
                None
            },
            10 => Some(Instr::LdI(nnn)),
            11 => Some(Instr::JpV0(nnn)),
            12 => Some(Instr::Rnd(x, kk)),
            13 => Some(Instr::Drw(x, y, n)),
            14 => match kk {
                0x9E => Some(Instr::SkipKey(x)),
                0xA1 => Some(Instr::SkipNoKey(x)),
                _ => None,
            },
            15 => match kk {
                0x07 => Some(Instr::ReadDelay(x)),
                0x0A => Some(Instr::WaitKey(x)),
                0x15 => Some(Instr::SetDelay(x)),
                0x18 => Some(Instr::SetSound(x)),
                0x1E => Some(Instr::AddI(x)),
                0x29 => Some(Instr::LdGlyph(x)),
                0x33 => Some(Instr::Bcd(x)),
                0x55 => Some(Instr::StoreRegs(x)),
                0x65 => Some(Instr::LoadRegs(x)),
                _ => None,
            },
            _ => None,
        }
    }
}

/// The register operands of a decoded instruction index the sixteen
/// registers, sprite heights are below 16 and addresses below 4096.
pub open spec fn instr_wf(i: Instr) -> bool {
    match i {
        Instr::Cls => true,
        Instr::Ret => true,
        Instr::Jp(nnn) => nnn < 4096,
        Instr::Call(nnn) => nnn < 4096,
        Instr::SeByte(x, _kk) => x < 16,
        Instr::SneByte(x, _kk) => x < 16,
        Instr::SeReg(x, y) => x < 16 && y < 16,
        Instr::LdByte(x, _kk) => x < 16,
        Instr::AddByte(x, _kk) => x < 16,
        Instr::MovReg(x, y) => x < 16 && y < 16,
        Instr::OrReg(x, y) => x < 16 && y < 16,
        Instr::AndReg(x, y) => x < 16 && y < 16,
        Instr::XorReg(x, y) => x < 16 && y < 16,
        Instr::AddReg(x, y) => x < 16 && y < 16,
        Instr::SubReg(x, y) => x < 16 && y < 16,
        Instr::ShrReg(x) => x < 16,
        Instr::SubnReg(x, y) => x < 16 && y < 16,
        Instr::ShlReg(x) => x < 16,
        Instr::SneReg(x, y) => x < 16 && y < 16,
        Instr::LdI(nnn) => nnn < 4096,
        Instr::JpV0(nnn) => nnn < 4096,
        Instr::Rnd(x, _kk) => x < 16,
        Instr::Drw(x, y, n) => x < 16 && y < 16 && n < 16,
        Instr::SkipKey(x) => x < 16,
        Instr::SkipNoKey(x) => x < 16,
        Instr::ReadDelay(x) => x < 16,
        Instr::WaitKey(x) => x < 16,
        Instr::SetDelay(x) => x < 16,
        Instr::SetSound(x) => x < 16,
        Instr::AddI(x) => x < 16,
        Instr::LdGlyph(x) => x < 16,
        Instr::Bcd(x) => x < 16,
        Instr::StoreRegs(x) => x < 16,
        Instr::LoadRegs(x) => x < 16,
    }
}

/// Whatever `spec_decode` yields is well-formed.
pub proof fn lemma_decode_wf(op: u16)
    ensures
        spec_decode(op) matches Some(i) ==> instr_wf(i),
{
}

/// Decode an opcode, or report that it matches no known instruction.
pub fn decode(op: u16) -> (r: Option<Instr>)
    ensures
        r == spec_decode(op),
{
    let x: u8 = ((op / 256) % 16) as u8;
    let y: u8 = ((op / 16) % 16) as u8;
    let n: u8 = (op % 16) as u8;
    let kk: u8 = (op % 256) as u8;
    let nnn: u16 = op % 4096;
    if op == 0x00E0 {
        Some(Instr::Cls)
    } else if op == 0x00EE {
        Some(Instr::Ret)
    } else {
        match op / 4096 {
            1 => Some(Instr::Jp(nnn)),
            2 => Some(Instr::Call(nnn)),
            3 => Some(Instr::SeByte(x, kk)),
            4 => Some(Instr::SneByte(x, kk)),
            5 => if n == 0 {
                Some(Instr::SeReg(x, y))
            } else {
                None
            },
            6 => Some(Instr::LdByte(x, kk)),
            7 => Some(Instr::AddByte(x, kk)),
            8 => match n {
                0 => Some(Instr::MovReg(x, y)),
                1 => Some(Instr::OrReg(x, y)),
                2 => Some(Instr::AndReg(x, y)),
                3 => Some(Instr::XorReg(x, y)),
                4 => Some(Instr::AddReg(x, y)),
                5 => Some(Instr::SubReg(x, y)),
                6 => Some(Instr::ShrReg(x)),
                7 => Some(Instr::SubnReg(x, y)),
                14 => Some(Instr::ShlReg(x)),
                _ => None,
            },
            9 => if n == 0 {
                Some(Instr::SneReg(x, y))
            } else {
                None
            },
            10 => Some(Instr::LdI(nnn)),
            11 => Some(Instr::JpV0(nnn)),
            12 => Some(Instr::Rnd(x, kk)),
            13 => Some(Instr::Drw(x, y, n)),
            14 => match kk {
                0x9E => Some(Instr::SkipKey(x)),
                0xA1 => Some(Instr::SkipNoKey(x)),
                _ => None,
            },
            15 => match kk {
                0x07 => Some(Instr::ReadDelay(x)),
                0x0A => Some(Instr::WaitKey(x)),
                0x15 => Some(Instr::SetDelay(x)),
                0x18 => Some(Instr::SetSound(x)),
                0x1E => Some(Instr::AddI(x)),
                0x29 => Some(Instr::LdGlyph(x)),
                0x33 => Some(Instr::Bcd(x)),
                0x55 => Some(Instr::StoreRegs(x)),
                0x65 => Some(Instr::LoadRegs(x)),
                _ => None,
            },
            _ => None,
        }
    }
}

} // verus!
