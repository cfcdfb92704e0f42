use vstd::prelude::*;

verus! {

/// One decoded CHIP-8 instruction with its operand fields.
///
/// Register operands `x` and `y` are below 16, `addr` is below 0x1000 and
/// `n` (sprite height) is below 16, as the 4- and 12-bit fields force.
#[derive(Clone, Copy, Debug, PartialEq, Eq, Structural)]
pub enum Instruction {
    /// 00E0: clear the display.
    Clear,
    /// 00EE: return from a subroutine.
    Return,
    /// 1nnn: jump to `addr`.
    Jump { addr: usize },
    /// 2nnn: call the subroutine at `addr`.
    Call { addr: usize },
    /// 3xkk: skip if Vx == kk.
    SkipEqByte { x: usize, kk: u8 },
    /// 4xkk: skip if Vx != kk.
    SkipNeByte { x: usize, kk: u8 },
    /// 5xy0: skip if Vx == Vy.
    SkipEqReg { x: usize, y: usize },
    /// 6xkk: Vx = kk.
    LoadByte { x: usize, kk: u8 },
    /// 7xkk: Vx = Vx + kk, wrapping, VF untouched.
    AddByte { x: usize, kk: u8 },
    /// 8xy0: Vx = Vy.
    LoadReg { x: usize, y: usize },
    /// 8xy1: Vx = Vx | Vy.
    Or { x: usize, y: usize },
    /// 8xy2: Vx = Vx & Vy.
    And { x: usize, y: usize },
    /// 8xy3: Vx = Vx ^ Vy.
    Xor { x: usize, y: usize },
    /// 8xy4: Vx = Vx + Vy, VF = carry.
    AddReg { x: usize, y: usize },
    /// 8xy5: Vx = Vx - Vy, VF = no borrow.
    SubReg { x: usize, y: usize },
    /// 8xy6: Vx = Vx >> 1, VF = the bit shifted out.
    ShiftRight { x: usize },
    /// 8xy7: Vx = Vy - Vx, VF = no borrow.
    SubNeg { x: usize, y: usize },
    /// 8xyE: Vx = Vx << 1, VF = the bit shifted out.
    ShiftLeft { x: usize },
    /// 9xy0: skip if Vx != Vy.
    SkipNeReg { x: usize, y: usize },
    /// Annn: I = addr.
    LoadIndex { addr: usize },
    /// Bnnn: jump to addr + V0.
    JumpOffset { addr: usize },
    /// Cxkk: Vx = random byte & kk.
    Random { x: usize, kk: u8 },
    /// Dxyn: draw an n-row sprite from memory at I at (Vx, Vy).
    Draw { x: usize, y: usize, n: usize },
    /// Ex9E: skip if the key numbered Vx is pressed.
    SkipKey { x: usize },
    /// ExA1: skip if the key numbered Vx is not pressed.
    SkipNoKey { x: usize },
    /// Fx07: Vx = delay timer.
    LoadDelay { x: usize },
    /// Fx0A: wait for a key press and store its number in Vx.
    WaitKey { x: usize },
    /// Fx15: delay timer = Vx.
    SetDelay { x: usize },
    /// Fx18: sound timer = Vx.
    SetSound { x: usize },
    /// Fx1E: I = I + Vx.
    AddIndex { x: usize },
    /// Fx29: I = address of the glyph for digit Vx.
    LoadFont { x: usize },
    /// Fx33: store the decimal digits of Vx at I, I+1, I+2.
    StoreBcd { x: usize },
    /// Fx55: store V0..=Vx at I onwards.
    StoreRegs { x: usize },
    /// Fx65: load V0..=Vx from I onwards.
    LoadRegs { x: usize },
    /// Any word that matches no instruction: does nothing.
    Unknown,
}

/// The four nibbles of an instruction word, most significant first.
pub open spec fn nibble(op: u16, k: int) -> int {
    if k == 0 {
        op as int / 0x1000
    } else if k == 1 {
        (op as int / 0x100) % 0x10
    } else if k == 2 {
        (op as int / 0x10) % 0x10
    } else {
        op as int % 0x10
    }
}

/// What an instruction word means.
#[verifier::opaque]
pub open spec fn decode_spec(op: u16) -> Instruction {
    let (a, b, c, d) = (nibble(op, 0), nibble(op, 1), nibble(op, 2), nibble(op, 3));
    let nnn = (op as int % 0x1000) as usize;
    let kk = (op as int % 0x100) as u8;
    let x = b as usize;
    let y = c as usize;
    if a == 0 && b == 0 && c == 0xE && d == 0 {
        Instruction::Clear
    } else if a == 0 && b == 0 && c == 0xE && d == 0xE {
        Instruction::Return
    } else if a == 1 {
        Instruction::Jump { addr: nnn }
    } else if a == 2 {
        Instruction::Call { addr: nnn }
    } else if a == 3 {
        Instruction::SkipEqByte { x, kk }
    } else if a == 4 {
        Instruction::SkipNeByte { x, kk }
    } else if a == 5 && d == 0 {
        Instruction::SkipEqReg { x, y }
    } else if a == 6 {
        Instruction::LoadByte { x, kk }
    } else if a == 7 {
        Instruction::AddByte { x, kk }
    } else if a == 8 && d == 0 {
        Instruction::LoadReg { x, y }
    } else if a == 8 && d == 1 {
        Instruction::Or { x, y }
    } else if a == 8 && d == 2 {
        Instruction::And { x, y }
    } else if a == 8 && d == 3 {
        Instruction::Xor { x, y }
    } else if a == 8 && d == 4 {
        Instruction::AddReg { x, y }
    } else if a == 8 && d == 5 {
        Instruction::SubReg { x, y }
    } else if a == 8 && d == 6 {
        Instruction::ShiftRight { x }
    } else if a == 8 && d == 7 {
        Instruction::SubNeg { x, y }
    } else if a == 8 && d == 0xE {
        Instruction::ShiftLeft { x }
    } else if a == 9 && d == 0 {
        Instruction::SkipNeReg { x, y }
    } else if a == 0xA {
        Instruction::LoadIndex { addr: nnn }
    } else if a == 0xB {
        Instruction::JumpOffset { addr: nnn }
    } else if a == 0xC {
        Instruction::Random { x, kk }
    } else if a == 0xD {
        Instruction::Draw { x, y, n: d as usize }
    } else if a == 0xE && c == 9 && d == 0xE {
        Instruction::SkipKey { x }
    } else if a == 0xE && c == 0xA && d == 1 {
        Instruction::SkipNoKey { x }
    } else if a == 0xF && c == 0 && d == 7 {
        Instruction::LoadDelay { x }
    } else if a == 0xF && c == 0 && d == 0xA {
        Instruction::WaitKey { x }
    } else if a == 0xF && c == 1 && d == 5 {
        Instruction::SetDelay { x }
    } else if a == 0xF && c == 1 && d == 8 {
        Instruction::SetSound { x }
    } else if a == 0xF && c == 1 && d == 0xE {
        Instruction::AddIndex { x }
    } else if a == 0xF && c == 2 && d == 9 {
        Instruction::LoadFont { x }
    } else if a == 0xF && c == 3 && d == 3 {
        Instruction::StoreBcd { x }
    } else if a == 0xF && c == 5 && d == 5 {
        Instruction::StoreRegs { x }
    } else if a == 0xF && c == 6 && d == 5 {
        Instruction::LoadRegs { x }
    } else {
        Instruction::Unknown
    }
}

/// Operands are within the ranges their fields allow.
pub open spec fn operands_in_range(ins: Instruction) -> bool {
    match ins {
        Instruction::Jump { addr } | Instruction::Call { addr } | Instruction::LoadIndex { addr }
        | Instruction::JumpOffset { addr } => addr < 0x1000,
        Instruction::SkipEqByte { x, .. } | Instruction::SkipNeByte { x, .. }
        | Instruction::LoadByte { x, .. } | Instruction::AddByte { x, .. }
        | Instruction::Random { x, .. } | Instruction::ShiftRight { x }
        | Instruction::ShiftLeft { x } | Instruction::SkipKey { x } | Instruction::SkipNoKey { x }
        | Instruction::LoadDelay { x } | Instruction::WaitKey { x } | Instruction::SetDelay { x }
        | Instruction::SetSound { x } | Instruction::AddIndex { x } | Instruction::LoadFont { x }
        | Instruction::StoreBcd { x } | Instruction::StoreRegs { x }
        | Instruction::LoadRegs { x } => x < 16,
        Instruction::SkipEqReg { x, y } | Instruction::LoadReg { x, y } | Instruction::Or { x, y }
        | Instruction::And { x, y } | Instruction::Xor { x, y } | Instruction::AddReg { x, y }
        | Instruction::SubReg { x, y } | Instruction::SubNeg { x, y }
        | Instruction::SkipNeReg { x, y } => x < 16 && y < 16,
        Instruction::Draw { x, y, n } => x < 16 && y < 16 && n < 16,
        _ => true,
    }
}

/// Splits an instruction word into its fields and names the instruction.
pub fn decode(op: u16) -> (r: Instruction)
    ensures
        r == decode_spec(op),
        operands_in_range(r),
{
    proof {
        reveal(decode_spec);
    }
    let a = op / 0x1000;
    let b = (op / 0x100) % 0x10;
    let c = (op / 0x10) % 0x10;
    let d = op % 0x10;
    let nnn = (op % 0x1000) as usize;
    let kk = (op % 0x100) as u8;
    let x = b as usize;
    let y = c as usize;
    if a == 0 && b == 0 && c == 0xE && d == 0 {
        Instruction::Clear
    } else if a == 0 && b == 0 && c == 0xE && d == 0xE {
        Instruction::Return
    } else if a == 1 {
        Instruction::Jump { addr: nnn }
    } else if a == 2 {
        Instruction::Call { addr: nnn }
    } else if a == 3 {
        Instruction::SkipEqByte { x, kk }
    } else if a == 4 {
        Instruction::SkipNeByte { x, kk }
    } else if a == 5 && d == 0 {
        Instruction::SkipEqReg { x, y }
    } else if a == 6 {
        Instruction::LoadByte { x, kk }
    } else if a == 7 {
        Instruction::AddByte { x, kk }
    } else if a == 8 && d == 0 {
        Instruction::LoadReg { x, y }
    } else if a == 8 && d == 1 {
        Instruction::Or { x, y }
    } else if a == 8 && d == 2 {
        Instruction::And { x, y }
    } else if a == 8 && d == 3 {
        Instruction::Xor { x, y }
    } else if a == 8 && d == 4 {
        Instruction::AddReg { x, y }
    } else if a == 8 && d == 5 {
        Instruction::SubReg { x, y }
    } else if a == 8 && d == 6 {
        Instruction::ShiftRight { x }
    } else if a == 8 && d == 7 {
        Instruction::SubNeg { x, y }
    } else if a == 8 && d == 0xE {
        Instruction::ShiftLeft { x }
    } else if a == 9 && d == 0 {
        Instruction::SkipNeReg { x, y }
    } else if a == 0xA {
        Instruction::LoadIndex { addr: nnn }
    } else if a == 0xB {
        Instruction::JumpOffset { addr: nnn }
    } else if a == 0xC {
        Instruction::Random { x, kk }
    } else if a == 0xD {
        Instruction::Draw { x, y, n: d as usize }
    } else if a == 0xE && c == 9 && d == 0xE {
        Instruction::SkipKey { x }
    } else if a == 0xE && c == 0xA && d == 1 {
        Instruction::SkipNoKey { x }
    } else if a == 0xF && c == 0 && d == 7 {
        Instruction::LoadDelay { x }
    } else if a == 0xF && c == 0 && d == 0xA {
        Instruction::WaitKey { x }
    } else if a == 0xF && c == 1 && d == 5 {
        Instruction::SetDelay { x }
    } else if a == 0xF && c == 1 && d == 8 {
        Instruction::SetSound { x }
    } else if a == 0xF && c == 1 && d == 0xE {
        Instruction::AddIndex { x }
    } else if a == 0xF && c == 2 && d == 9 {
        Instruction::LoadFont { x }
    } else if a == 0xF && c == 3 && d == 3 {
        Instruction::StoreBcd { x }
    } else if a == 0xF && c == 5 && d == 5 {
        Instruction::StoreRegs { x }
    } else if a == 0xF && c == 6 && d == 5 {
        Instruction::LoadRegs { x }
    } else {
        Instruction::Unknown
    }
}

} // verus!
