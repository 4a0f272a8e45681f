//! Instruction decoding: a 16-bit opcode becomes one tagged variant, so
//! that every instruction's semantics is stated and tested on its own and
//! no two opcode families overlap.

use vstd::prelude::*;

verus! {

/// One decoded CHIP-8 instruction. `x` and `y` select registers, `kk` is an
/// immediate byte, `nnn` a 12-bit address, `n` a sprite height.
#[derive(Clone, Copy, Debug, PartialEq, Eq, Structural)]
pub enum Instr {
    /// 00E0: clear the framebuffer.
    Cls,
    /// 00EE: return from a subroutine.
    Ret,
    /// 0nnn other than 00E0/00EE: machine routine, ignored.
    Sys,
    /// 1nnn: jump.
    Jp { nnn: u16 },
    /// 2nnn: call a subroutine.
    Call { nnn: u16 },
    /// 3xkk: skip the next instruction if Vx == kk.
    SeByte { x: u8, kk: u8 },
    /// 4xkk: skip the next instruction if Vx != kk.
    SneByte { x: u8, kk: u8 },
    /// 5xy0: skip the next instruction if Vx == Vy.
    SeReg { x: u8, y: u8 },
    /// 6xkk: Vx = kk.
    LdByte { x: u8, kk: u8 },
    /// 7xkk: Vx = Vx + kk, wrapping, no flag.
    AddByte { x: u8, kk: u8 },
    /// 8xy0: Vx = Vy.
    LdReg { x: u8, y: u8 },
    /// 8xy1: Vx = Vx | Vy.
    Or { x: u8, y: u8 },
    /// 8xy2: Vx = Vx & Vy.
    And { x: u8, y: u8 },
    /// 8xy3: Vx = Vx ^ Vy.
    Xor { x: u8, y: u8 },
    /// 8xy4: Vx = Vx + Vy with VF as carry.
    AddReg { x: u8, y: u8 },
    /// 8xy5: Vx = Vx - Vy with VF as no-borrow.
    SubReg { x: u8, y: u8 },
    /// 8xy6: VF = low bit of Vx; Vx = Vx >> 1.
    Shr { x: u8, y: u8 },
    /// 8xy7: Vx = Vy - Vx with VF as no-borrow.
    SubN { x: u8, y: u8 },
    /// 8xyE: VF = high bit of Vx, normalized to 0 or 1; Vx = Vx << 1.
    Shl { x: u8, y: u8 },
    /// 9xy0: skip the next instruction if Vx != Vy.
    SneReg { x: u8, y: u8 },
    /// Annn: I = nnn.
    LdI { nnn: u16 },
    /// Bnnn: jump to nnn + V0.
    JpV0 { nnn: u16 },
    /// Cxkk: Vx = random byte & kk.
    Rnd { x: u8, kk: u8 },
    /// Dxyn: draw an n-row sprite from memory[I..] at (Vx, Vy).
    Drw { x: u8, y: u8, n: u8 },
    /// Ex9E: skip the next instruction if key Vx is down.
    Skp { x: u8 },
    /// ExA1: skip the next instruction if key Vx is up.
    Sknp { x: u8 },
    /// Fx07: Vx = delay timer.
    LdFromDt { x: u8 },
    /// Fx0A: suspend until a key is down; that key's index goes to Vx.
    LdKey { x: u8 },
    /// Fx15: delay timer = Vx.
    LdToDt { x: u8 },
    /// Fx18: sound timer = Vx.
    LdToSt { x: u8 },
    /// Fx1E: I = I + Vx, 12-bit wraparound.
    AddI { x: u8 },
    /// Fx29: I = 5 * Vx, the font glyph base.
    LdFont { x: u8 },
    /// Fx33: decimal digits of Vx to memory[I..I+3).
    Bcd { x: u8 },
    /// Fx55: V0..Vx inclusive to memory[I..].
    Store { x: u8 },
    /// Fx65: memory[I..] to V0..Vx inclusive.
    Load { x: u8 },
    /// Any unrecognized opcode: no effect beyond the ordinary advance.
    Nop,
}

impl Instr {
    /// Every register field below 16, every address below 4096, every
    /// sprite height below 16: what decoding guarantees.
    pub open spec fn wf(self) -> bool {
        match self {
            Instr::Jp { nnn } => nnn < 4096,
            Instr::Call { nnn } => nnn < 4096,
            Instr::SeByte { x, kk } => x < 16,
            Instr::SneByte { x, kk } => x < 16,
            Instr::SeReg { x, y } => x < 16 && y < 16,
            Instr::LdByte { x, kk } => x < 16,
            Instr::AddByte { x, kk } => x < 16,
            Instr::LdReg { x, y } => x < 16 && y < 16,
            Instr::Or { x, y } => x < 16 && y < 16,
            Instr::And { x, y } => x < 16 && y < 16,
            Instr::Xor { x, y } => x < 16 && y < 16,
            Instr::AddReg { x, y } => x < 16 && y < 16,
            Instr::SubReg { x, y } => x < 16 && y < 16,
            Instr::Shr { x, y } => x < 16 && y < 16,
            Instr::SubN { x, y } => x < 16 && y < 16,
            Instr::Shl { x, y } => x < 16 && y < 16,
            Instr::SneReg { x, y } => x < 16 && y < 16,
            Instr::LdI { nnn } => nnn < 4096,
            Instr::JpV0 { nnn } => nnn < 4096,
            Instr::Rnd { x, kk } => x < 16,
            Instr::Drw { x, y, n } => x < 16 && y < 16 && n < 16,
            Instr::Skp { x } => x < 16,
            Instr::Sknp { x } => x < 16,
            Instr::LdFromDt { x } => x < 16,
            Instr::LdKey { x } => x < 16,
            Instr::LdToDt { x } => x < 16,
            Instr::LdToSt { x } => x < 16,
            Instr::AddI { x } => x < 16,
            Instr::LdFont { x } => x < 16,
            Instr::Bcd { x } => x < 16,
            Instr::Store { x } => x < 16,
            Instr::Load { x } => x < 16,
            _ => true,
        }
    }
}

/// The instruction that a big-endian 16-bit opcode denotes.
pub open spec fn spec_decode(op: u16) -> Instr {
    let x = ((op >> 8) & 0xF) as u8;
    let y = ((op >> 4) & 0xF) as u8;
    let n = (op & 0xF) as u8;
    let kk = (op & 0xFF) as u8;
    let nnn = op & 0xFFF;
    if op == 0x00E0 {
        Instr::Cls
    } else if op == 0x00EE {
        Instr::Ret
    } else {
        match op >> 12 {
            0x0 => Instr::Sys,
            0x1 => Instr::Jp { nnn },
            0x2 => Instr::Call { nnn },
            0x3 => Instr::SeByte { x, kk },
            0x4 => Instr::SneByte { x, kk },
            0x5 => if n == 0 { Instr::SeReg { x, y } } else { Instr::Nop },
            0x6 => Instr::LdByte { x, kk },
            0x7 => Instr::AddByte { x, kk },
            0x8 => match n {
                0x0 => Instr::LdReg { x, y },
                0x1 => Instr::Or { x, y },
                0x2 => Instr::And { x, y },
                0x3 => Instr::Xor { x, y },
                0x4 => Instr::AddReg { x, y },
                0x5 => Instr::SubReg { x, y },
                0x6 => Instr::Shr { x, y },
                0x7 => Instr::SubN { x, y },
                0xE => Instr::Shl { x, y },
                _ => Instr::Nop,
            },
            0x9 => if n == 0 { Instr::SneReg { x, y } } else { Instr::Nop },
            0xA => Instr::LdI { nnn },
            0xB => Instr::JpV0 { nnn },
            0xC => Instr::Rnd { x, kk },
            0xD => Instr::Drw { x, y, n },
            0xE => if kk == 0x9E {
                Instr::Skp { x }
            } else if kk == 0xA1 {
                Instr::Sknp { x }
            } else {
                Instr::Nop
            },
            0xF => match kk {
                0x07 => Instr::LdFromDt { x },
                0x0A => Instr::LdKey { x },
                0x15 => Instr::LdToDt { x },
                0x18 => Instr::LdToSt { x },
                0x1E => Instr::AddI { x },
                0x29 => Instr::LdFont { x },
                0x33 => Instr::Bcd { x },
                0x55 => Instr::Store { x },
                0x65 => Instr::Load { x },
                _ => Instr::Nop,
            },
            _ => Instr::Nop,
        }
    }
}

/// Every decoded instruction is well formed: its nibble fields are below
/// 16 and its address field below 4096.
pub proof fn lemma_decode_wf(op: u16)
    ensures spec_decode(op).wf(),
{
    assert((op >> 8) & 0xF < 16 && (op >> 4) & 0xF < 16 && (op & 0xF) < 16
        && (op & 0xFFF) < 4096 && (op >> 12) <= 0xF) by (bit_vector);
}

/// Decodes one opcode.
pub fn decode(op: u16) -> (ins: Instr)
    ensures
        ins == spec_decode(op),
        ins.wf(),
{
    proof { lemma_decode_wf(op); }
    let x = ((op >> 8) & 0xF) as u8;
    let y = ((op >> 4) & 0xF) as u8;
    let n = (op & 0xF) as u8;
    let kk = (op & 0xFF) as u8;
    let nnn = op & 0xFFF;
    if op == 0x00E0 {
        Instr::Cls
    } else if op == 0x00EE {
        Instr::Ret
    } else {
        match op >> 12 {
            0x0 => Instr::Sys,
            0x1 => Instr::Jp { nnn },
            0x2 => Instr::Call { nnn },
            0x3 => Instr::SeByte { x, kk },
            0x4 => Instr::SneByte { x, kk },
            0x5 => if n == 0 { Instr::SeReg { x, y } } else { Instr::Nop },
            0x6 => Instr::LdByte { x, kk },
            0x7 => Instr::AddByte { x, kk },
            0x8 => match n {
                0x0 => Instr::LdReg { x, y },
                0x1 => Instr::Or { x, y },
                0x2 => Instr::And { x, y },
                0x3 => Instr::Xor { x, y },
                0x4 => Instr::AddReg { x, y },
                0x5 => Instr::SubReg { x, y },
                0x6 => Instr::Shr { x, y },
                0x7 => Instr::SubN { x, y },
                0xE => Instr::Shl { x, y },
                _ => Instr::Nop,
            },
            0x9 => if n == 0 { Instr::SneReg { x, y } } else { Instr::Nop },
            0xA => Instr::LdI { nnn },
            0xB => Instr::JpV0 { nnn },
            0xC => Instr::Rnd { x, kk },
            0xD => Instr::Drw { x, y, n },
            0xE => if kk == 0x9E {
                Instr::Skp { x }
            } else if kk == 0xA1 {
                Instr::Sknp { x }
            } else {
                Instr::Nop
            },
            0xF => match kk {
                0x07 => Instr::LdFromDt { x },
                0x0A => Instr::LdKey { x },
                0x15 => Instr::LdToDt { x },
                0x18 => Instr::LdToSt { x },
                0x1E => Instr::AddI { x },
                0x29 => Instr::LdFont { x },
                0x33 => Instr::Bcd { x },
                0x55 => Instr::Store { x },
                0x65 => Instr::Load { x },
                _ => Instr::Nop,
            },
            _ => Instr::Nop,
        }
    }
}

} // verus!
