//! Instruction words, their decoding, and the cost table.
//!
//! An instruction word is split into four 4-bit fields (nibbles); the
//! 4-tuple selects the opcode. Unrecognized combinations decode to `None`
//! and are a fatal fault of the running program. Each opcode family carries
//! a fixed abstract cost, in microseconds, used only to pace emulation.

use vstd::prelude::*;

verus! {

/// A fatal fault: the running program is corrupt or unsupported, and the
/// machine cannot recover. The machine state is left unchanged by a step
/// that faults.
#[derive(Clone, Copy, Debug, PartialEq, Eq, Structural)]
pub enum Fault {
    /// Decoding produced no opcode; carries the raw instruction word.
    Unsupported(u16),
    /// A return was executed with an empty call stack.
    StackUnderflow,
    /// A call was executed with the call stack already at its bound.
    StackOverflow,
    /// An instruction would have read or written outside memory, or
    /// indexed the keypad with a register value of 16 or more.
    OutOfBounds,
}

/// A decoded instruction. Register operands are the nibble values `x` and
/// `y`; immediates are the low byte `nn` or the low 12 bits `nnn`.
#[derive(Clone, Copy, Debug, PartialEq, Eq, Structural)]
pub enum Opcode {
    /// `00E0`: clear every screen cell.
    Cls,
    /// `00EE`: pop the stack into the program counter.
    Ret,
    /// `1nnn`: jump to `nnn`.
    Jp(u16),
    /// `2nnn`: push the program counter, then jump to `nnn`.
    Call(u16),
    /// `3xnn`: skip the next instruction if `Vx == nn`.
    SeImm(u8, u8),
    /// `4xnn`: skip the next instruction if `Vx != nn`.
    SneImm(u8, u8),
    /// `5xy0`: skip the next instruction if `Vx == Vy`.
    SeReg(u8, u8),
    /// `6xnn`: `Vx <- nn`.
    LdImm(u8, u8),
    /// `7xnn`: `Vx <- Vx + nn`, wrapping, no flag.
    AddImm(u8, u8),
    /// `8xy0`: `Vx <- Vy`.
    Mov(u8, u8),
    /// `8xy1`: `Vx <- Vx | Vy`; VF reset to 0.
    Or(u8, u8),
    /// `8xy2`: `Vx <- Vx & Vy`; VF reset to 0.
    And(u8, u8),
    /// `8xy3`: `Vx <- Vx ^ Vy`; VF reset to 0.
    Xor(u8, u8),
    /// `8xy4`: `Vx <- Vx + Vy` wrapping; VF is the carry.
    Add(u8, u8),
    /// `8xy5`: `Vx <- Vx - Vy` wrapping; VF is 1 when no borrow occurred.
    Sub(u8, u8),
    /// `8xy6`: `Vx <- Vy >> 1`; VF is the bit shifted out.
    Shr(u8, u8),
    /// `8xy7`: `Vx <- Vy - Vx` wrapping; VF is 1 when no borrow occurred.
    Subn(u8, u8),
    /// `8xyE`: `Vx <- Vy << 1` wrapping; VF is the bit shifted out.
    Shl(u8, u8),
    /// `9xy0`: skip the next instruction if `Vx != Vy`.
    SneReg(u8, u8),
    /// `Annn`: index register `<- nnn`.
    LdI(u16),
    /// `Bnnn`: jump to `V0 + nnn`.
    JpV0(u16),
    /// `Cxnn`: `Vx <-` a uniformly random byte AND `nn`.
    Rnd(u8, u8),
    /// `Dxyn`: draw the n-row sprite at the index register to `(Vx, Vy)`.
    Drw(u8, u8, u8),
    /// `Ex9E`: skip the next instruction if key `Vx` is pressed.
    Skp(u8),
    /// `ExA1`: skip the next instruction if key `Vx` is not pressed.
    Sknp(u8),
    /// `Fx07`: `Vx <-` delay timer.
    LdFromDt(u8),
    /// `Fx0A`: block until a key is pressed, then `Vx <-` its index.
    WaitKey(u8),
    /// `Fx15`: delay timer `<- Vx`.
    LdDt(u8),
    /// `Fx18`: sound timer `<- Vx`.
    LdSt(u8),
    /// `Fx1E`: index register `<- index register + Vx`, wrapping at 16 bits.
    AddI(u8),
    /// `Fx29`: index register `<-` the font offset of the low nibble of `Vx`.
    LdFont(u8),
    /// `Fx33`: store the decimal digits of `Vx` at the index register.
    Bcd(u8),
    /// `Fx55`: copy V0..Vx into memory at the index register; then
    /// increment the index register by one.
    StoreRegs(u8),
    /// `Fx65`: load V0..Vx from memory at the index register; then
    /// increment the index register by one.
    LoadRegs(u8),
}

/// Leading nibble of an instruction word.
pub open spec fn op_group(w: u16) -> u16 {
    w / 0x1000
}

/// Second nibble: the `x` register operand.
pub open spec fn op_x(w: u16) -> u8 {
    ((w / 0x100) % 16) as u8
}

/// Third nibble: the `y` register operand.
pub open spec fn op_y(w: u16) -> u8 {
    ((w / 16) % 16) as u8
}

/// Trailing nibble: the `n` operand.
pub open spec fn op_n(w: u16) -> u8 {
    (w % 16) as u8
}

/// Low byte: the `nn` immediate.
pub open spec fn op_nn(w: u16) -> u8 {
    (w % 256) as u8
}

/// Low 12 bits: the `nnn` address.
pub open spec fn op_nnn(w: u16) -> u16 {
    w % 0x1000
}

/// The opcode an instruction word decodes to, if any.
pub open spec fn spec_decode(w: u16) -> Option<Opcode> {
    let g = op_group(w);
    let x = op_x(w);
    let y = op_y(w);
    let n = op_n(w);
    if g == 0x0 && x == 0 && y == 0xE && n == 0x0 {
        Some(Opcode::Cls)
    } else if g == 0x0 && x == 0 && y == 0xE && n == 0xE {
        Some(Opcode::Ret)
    } else if g == 0x1 {
        Some(Opcode::Jp(op_nnn(w)))
    } else if g == 0x2 {
        Some(Opcode::Call(op_nnn(w)))
    } else if g == 0x3 {
        Some(Opcode::SeImm(x, op_nn(w)))
    } else if g == 0x4 {
        Some(Opcode::SneImm(x, op_nn(w)))
    } else if g == 0x5 && n == 0x0 {
        Some(Opcode::SeReg(x, y))
    } else if g == 0x6 {
        Some(Opcode::LdImm(x, op_nn(w)))
    } else if g == 0x7 {
        Some(Opcode::AddImm(x, op_nn(w)))
    } else if g == 0x8 && n == 0x0 {
        Some(Opcode::Mov(x, y))
    } else if g == 0x8 && n == 0x1 {
        Some(Opcode::Or(x, y))
    } else if g == 0x8 && n == 0x2 {
        Some(Opcode::And(x, y))
    } else if g == 0x8 && n == 0x3 {
        Some(Opcode::Xor(x, y))
    } else if g == 0x8 && n == 0x4 {
        Some(Opcode::Add(x, y))
    } else if g == 0x8 && n == 0x5 {
        Some(Opcode::Sub(x, y))
    } else if g == 0x8 && n == 0x6 {
        Some(Opcode::Shr(x, y))
    } else if g == 0x8 && n == 0x7 {
        Some(Opcode::Subn(x, y))
    } else if g == 0x8 && n == 0xE {
        Some(Opcode::Shl(x, y))
    } else if g == 0x9 && n == 0x0 {
        Some(Opcode::SneReg(x, y))
    } else if g == 0xA {
        Some(Opcode::LdI(op_nnn(w)))
    } else if g == 0xB {
        Some(Opcode::JpV0(op_nnn(w)))
    } else if g == 0xC {
        Some(Opcode::Rnd(x, op_nn(w)))
    } else if g == 0xD {
        Some(Opcode::Drw(x, y, n))
    } else if g == 0xE && y == 0x9 && n == 0xE {
        Some(Opcode::Skp(x))
    } else if g == 0xE && y == 0xA && n == 0x1 {
        Some(Opcode::Sknp(x))
    } else if g == 0xF && y == 0x0 && n == 0x7 {
        Some(Opcode::LdFromDt(x))
    } else if g == 0xF && y == 0x0 && n == 0xA {
        Some(Opcode::WaitKey(x))
    } else if g == 0xF && y == 0x1 && n == 0x5 {
        Some(Opcode::LdDt(x))
    } else if g == 0xF && y == 0x1 && n == 0x8 {
        Some(Opcode::LdSt(x))
    } else if g == 0xF && y == 0x1 && n == 0xE {
        Some(Opcode::AddI(x))
    } else if g == 0xF && y == 0x2 && n == 0x9 {
        Some(Opcode::LdFont(x))
    } else if g == 0xF && y == 0x3 && n == 0x3 {
        Some(Opcode::Bcd(x))
    } else if g == 0xF && y == 0x5 && n == 0x5 {
        Some(Opcode::StoreRegs(x))
    } else if g == 0xF && y == 0x6 && n == 0x5 {
        Some(Opcode::LoadRegs(x))
    } else {
        None
    }
}

/// Every register operand of a decoded opcode is below 16, every `n`
/// operand below 16, and every `nnn` address below 0x1000.
pub open spec fn op_bounded(op: Opcode) -> bool {
    match op {
        Opcode::Cls => true,
        Opcode::Ret => true,
        Opcode::Jp(a) => a < 0x1000,
        Opcode::Call(a) => a < 0x1000,
        Opcode::SeImm(x, _) => x < 16,
        Opcode::SneImm(x, _) => x < 16,
        Opcode::SeReg(x, y) => x < 16 && y < 16,
        Opcode::LdImm(x, _) => x < 16,
        Opcode::AddImm(x, _) => x < 16,
        Opcode::Mov(x, y) => x < 16 && y < 16,
        Opcode::Or(x, y) => x < 16 && y < 16,
        Opcode::And(x, y) => x < 16 && y < 16,
        Opcode::Xor(x, y) => x < 16 && y < 16,
        Opcode::Add(x, y) => x < 16 && y < 16,
        Opcode::Sub(x, y) => x < 16 && y < 16,
        Opcode::Shr(x, y) => x < 16 && y < 16,
        Opcode::Subn(x, y) => x < 16 && y < 16,
        Opcode::Shl(x, y) => x < 16 && y < 16,
        Opcode::SneReg(x, y) => x < 16 && y < 16,
        Opcode::LdI(a) => a < 0x1000,
        Opcode::JpV0(a) => a < 0x1000,
        Opcode::Rnd(x, _) => x < 16,
        Opcode::Drw(x, y, n) => x < 16 && y < 16 && n < 16,
        Opcode::Skp(x) => x < 16,
        Opcode::Sknp(x) => x < 16,
        Opcode::LdFromDt(x) => x < 16,
        Opcode::WaitKey(x) => x < 16,
        Opcode::LdDt(x) => x < 16,
        Opcode::LdSt(x) => x < 16,
        Opcode::AddI(x) => x < 16,
        Opcode::LdFont(x) => x < 16,
        Opcode::Bcd(x) => x < 16,
        Opcode::StoreRegs(x) => x < 16,
        Opcode::LoadRegs(x) => x < 16,
    }
}

/// The `nn` immediate of an instruction word: its low byte.
pub fn nn(op: u16) -> (r: u8)
    ensures
        r == op_nn(op),
{
    proof {
        assert((op & 0x00FF) as u8 == (op % 256) as u8) by (bit_vector);
    }
    (op & 0x00FF) as u8
}

/// The `nnn` address of an instruction word: its low 12 bits.
pub fn nnn(op: u16) -> (r: u16)
    ensures
        r == op_nnn(op),
{
    proof {
        assert(op & 0x0FFF == op % 0x1000) by (bit_vector);
    }
    op & 0x0FFF
}

/// Split an instruction word into its four nibbles and dispatch on the
/// 4-tuple. Returns `None` exactly when the word is no defined opcode.
pub fn decode(w: u16) -> (r: Option<Opcode>)
    ensures
        r == spec_decode(w),
        r matches Some(op) ==> op_bounded(op),
{
    let g: u16 = w >> 12;
    let x: u8 = ((w >> 8) & 0xF) as u8;
    let y: u8 = ((w >> 4) & 0xF) as u8;
    let n: u8 = (w & 0xF) as u8;
    proof {
        assert(w >> 12 == w / 0x1000) by (bit_vector);
        assert(((w >> 8) & 0xF) as u8 == ((w / 0x100) % 16) as u8) by (bit_vector);
        assert(((w >> 4) & 0xF) as u8 == ((w / 16) % 16) as u8) by (bit_vector);
        assert((w & 0xF) as u8 == (w % 16) as u8) by (bit_vector);
    }
    if g == 0x0 && x == 0 && y == 0xE && n == 0x0 {
        Some(Opcode::Cls)
    } else if g == 0x0 && x == 0 && y == 0xE && n == 0xE {
        Some(Opcode::Ret)
    } else if g == 0x1 {
        Some(Opcode::Jp(nnn(w)))
    } else if g == 0x2 {
        Some(Opcode::Call(nnn(w)))
    } else if g == 0x3 {
        Some(Opcode::SeImm(x, nn(w)))
    } else if g == 0x4 {
        Some(Opcode::SneImm(x, nn(w)))
    } else if g == 0x5 && n == 0x0 {
        Some(Opcode::SeReg(x, y))
    } else if g == 0x6 {
        Some(Opcode::LdImm(x, nn(w)))
    } else if g == 0x7 {
        Some(Opcode::AddImm(x, nn(w)))
    } else if g == 0x8 && n == 0x0 {
        Some(Opcode::Mov(x, y))
    } else if g == 0x8 && n == 0x1 {
        Some(Opcode::Or(x, y))
    } else if g == 0x8 && n == 0x2 {
        Some(Opcode::And(x, y))
    } else if g == 0x8 && n == 0x3 {
        Some(Opcode::Xor(x, y))
    } else if g == 0x8 && n == 0x4 {
        Some(Opcode::Add(x, y))
    } else if g == 0x8 && n == 0x5 {
        Some(Opcode::Sub(x, y))
    } else if g == 0x8 && n == 0x6 {
        Some(Opcode::Shr(x, y))
    } else if g == 0x8 && n == 0x7 {
        Some(Opcode::Subn(x, y))
    } else if g == 0x8 && n == 0xE {
        Some(Opcode::Shl(x, y))
    } else if g == 0x9 && n == 0x0 {
        Some(Opcode::SneReg(x, y))
    } else if g == 0xA {
        Some(Opcode::LdI(nnn(w)))
    } else if g == 0xB {
        Some(Opcode::JpV0(nnn(w)))
    } else if g == 0xC {
        Some(Opcode::Rnd(x, nn(w)))
    } else if g == 0xD {
        Some(Opcode::Drw(x, y, n))
    } else if g == 0xE && y == 0x9 && n == 0xE {
        Some(Opcode::Skp(x))
    } else if g == 0xE && y == 0xA && n == 0x1 {
        Some(Opcode::Sknp(x))
    } else if g == 0xF && y == 0x0 && n == 0x7 {
        Some(Opcode::LdFromDt(x))
    } else if g == 0xF && y == 0x0 && n == 0xA {
        Some(Opcode::WaitKey(x))
    } else if g == 0xF && y == 0x1 && n == 0x5 {
        Some(Opcode::LdDt(x))
    } else if g == 0xF && y == 0x1 && n == 0x8 {
        Some(Opcode::LdSt(x))
    } else if g == 0xF && y == 0x1 && n == 0xE {
        Some(Opcode::AddI(x))
    } else if g == 0xF && y == 0x2 && n == 0x9 {
        Some(Opcode::LdFont(x))
    } else if g == 0xF && y == 0x3 && n == 0x3 {
        Some(Opcode::Bcd(x))
    } else if g == 0xF && y == 0x5 && n == 0x5 {
        Some(Opcode::StoreRegs(x))
    } else if g == 0xF && y == 0x6 && n == 0x5 {
        Some(Opcode::LoadRegs(x))
    } else {
        None
    }
}

/// The abstract cost of each opcode family, in microseconds. The values
/// are a pacing model, not a hardware cycle count: trivial register moves
/// are cheapest and sprite drawing is by far the most expensive.
pub open spec fn cost(op: Opcode) -> i64 {
    match op {
        Opcode::Cls => 109,
        Opcode::Ret => 105,
        Opcode::Jp(_) => 105,
        Opcode::Call(_) => 105,
        Opcode::SeImm(_, _) => 55,
        Opcode::SneImm(_, _) => 55,
        Opcode::SeReg(_, _) => 73,
        Opcode::LdImm(_, _) => 27,
        Opcode::AddImm(_, _) => 45,
        Opcode::Mov(_, _) => 200,
        Opcode::Or(_, _) => 200,
        Opcode::And(_, _) => 200,
        Opcode::Xor(_, _) => 200,
        Opcode::Add(_, _) => 200,
        Opcode::Sub(_, _) => 200,
        Opcode::Shr(_, _) => 200,
        Opcode::Subn(_, _) => 200,
        Opcode::Shl(_, _) => 200,
        Opcode::SneReg(_, _) => 73,
        Opcode::LdI(_) => 55,
        Opcode::JpV0(_) => 105,
        Opcode::Rnd(_, _) => 164,
        Opcode::Drw(_, _, _) => 22734,
        Opcode::Skp(_) => 73,
        Opcode::Sknp(_) => 73,
        Opcode::LdFromDt(_) => 45,
        Opcode::WaitKey(_) => 100,
        Opcode::LdDt(_) => 45,
        Opcode::LdSt(_) => 45,
        Opcode::AddI(_) => 86,
        Opcode::LdFont(_) => 91,
        Opcode::Bcd(_) => 927,
        Opcode::StoreRegs(_) => 605,
        Opcode::LoadRegs(_) => 605,
    }
}

/// The cost table, as executable code.
pub fn instruction_cost(op: &Opcode) -> (c: i64)
    ensures
        c == cost(*op),
{
    match op {
        Opcode::Cls => 109,
        Opcode::Ret => 105,
        Opcode::Jp(_) => 105,
        Opcode::Call(_) => 105,
        Opcode::SeImm(_, _) => 55,
        Opcode::SneImm(_, _) => 55,
        Opcode::SeReg(_, _) => 73,
        Opcode::LdImm(_, _) => 27,
        Opcode::AddImm(_, _) => 45,
        Opcode::Mov(_, _) => 200,
        Opcode::Or(_, _) => 200,
        Opcode::And(_, _) => 200,
        Opcode::Xor(_, _) => 200,
        Opcode::Add(_, _) => 200,
        Opcode::Sub(_, _) => 200,
        Opcode::Shr(_, _) => 200,
        Opcode::Subn(_, _) => 200,
        Opcode::Shl(_, _) => 200,
        Opcode::SneReg(_, _) => 73,
        Opcode::LdI(_) => 55,
        Opcode::JpV0(_) => 105,
        Opcode::Rnd(_, _) => 164,
        Opcode::Drw(_, _, _) => 22734,
        Opcode::Skp(_) => 73,
        Opcode::Sknp(_) => 73,
        Opcode::LdFromDt(_) => 45,
        Opcode::WaitKey(_) => 100,
        Opcode::LdDt(_) => 45,
        Opcode::LdSt(_) => 45,
        Opcode::AddI(_) => 86,
        Opcode::LdFont(_) => 91,
        Opcode::Bcd(_) => 927,
        Opcode::StoreRegs(_) => 605,
        Opcode::LoadRegs(_) => 605,
    }
}

} // verus!
