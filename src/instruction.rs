//! Decoding of 16-bit opcodes into structured instructions.
use vstd::prelude::*;

verus! {

/// One decoded instruction. Register operands are indices in `0..16`,
/// addresses are 12-bit values and sprite heights are nibbles.
#[derive(Clone, Copy, Debug, PartialEq, Eq, Structural)]
pub enum Instruction {
    /// 00E0: clear the framebuffer.
    ClearScreen,
    /// 00EE: return from a subroutine.
    Return,
    /// 1nnn: jump to `addr`.
    Jump { addr: u16 },
    /// 2nnn: call the subroutine at `addr`.
    Call { addr: u16 },
    /// 3xkk: skip the next instruction if Vx == kk.
    SkipEqImm { x: u8, kk: u8 },
    /// 4xkk: skip the next instruction if Vx != kk.
    SkipNeImm { x: u8, kk: u8 },
    /// 5xy0: skip the next instruction if Vx == Vy.
    SkipEqReg { x: u8, y: u8 },
    /// 6xkk: Vx = kk.
    LoadImm { x: u8, kk: u8 },
    /// 7xkk: Vx += kk, wrapping, flag untouched.
    AddImm { x: u8, kk: u8 },
    /// 8xy0: Vx = Vy.
    Move { x: u8, y: u8 },
    /// 8xy1: Vx |= Vy.
    Or { x: u8, y: u8 },
    /// 8xy2: Vx &= Vy.
    And { x: u8, y: u8 },
    /// 8xy3: Vx ^= Vy.
    Xor { x: u8, y: u8 },
    /// 8xy4: Vx += Vy, flag = carry.
    AddCarry { x: u8, y: u8 },
    /// 8xy5: Vx -= Vy, flag = not borrow.
    Sub { x: u8, y: u8 },
    /// 8xy6: Vx >>= 1, flag = the bit shifted out.
    ShiftRight { x: u8 },
    /// 8xy7: Vx = Vy - Vx, flag = not borrow.
    SubReverse { x: u8, y: u8 },
    /// 8xyE: Vx <<= 1, flag = the bit shifted out.
    ShiftLeft { x: u8 },
    /// 9xy0: skip the next instruction if Vx != Vy.
    SkipNeReg { x: u8, y: u8 },
    /// Annn: I = addr.
    LoadIndex { addr: u16 },
    /// Bnnn: jump to addr + V0.
    JumpOffset { addr: u16 },
    /// Cxkk: Vx = random byte & kk.
    Random { x: u8, kk: u8 },
    /// Dxyn: draw an n-row sprite from memory at I at (Vx, Vy).
    Draw { x: u8, y: u8, n: u8 },
    /// Ex9E: skip the next instruction if key Vx is pressed.
    SkipKey { x: u8 },
    /// ExA1: skip the next instruction if key Vx is not pressed.
    SkipNotKey { x: u8 },
    /// Fx07: Vx = delay timer.
    ReadDelay { x: u8 },
    /// Fx0A: wait for a key press and store its index in Vx.
    WaitKey { x: u8 },
    /// Fx15: delay timer = Vx.
    SetDelay { x: u8 },
    /// Fx18: sound timer = Vx.
    SetSound { x: u8 },
    /// Fx1E: I += Vx, wrapping.
    AddIndex { x: u8 },
    /// Fx29: I = address of the font glyph for digit Vx.
    FontGlyph { x: u8 },
    /// Fx33: store the decimal digits of Vx at I, I+1, I+2.
    StoreBcd { x: u8 },
    /// Fx55: store V0..=Vx at I..=I+x.
    StoreRegs { x: u8 },
    /// Fx65: load V0..=Vx from I..=I+x.
    LoadRegs { x: u8 },
    /// Any other opcode: executes as a no-op.
    Unknown { opcode: u16 },
}

impl Instruction {
    /// Operands are in range: registers below 16, addresses below 0x1000,
    /// sprite heights below 16.
    pub open spec fn wf(self) -> bool {
        match self {
            Instruction::Jump { addr } => addr < 0x1000,
            Instruction::Call { addr } => addr < 0x1000,
            Instruction::LoadIndex { addr } => addr < 0x1000,
            Instruction::JumpOffset { addr } => addr < 0x1000,
            Instruction::SkipEqImm { x, .. } => x < 16,
            Instruction::SkipNeImm { x, .. } => x < 16,
            Instruction::LoadImm { x, .. } => x < 16,
            Instruction::AddImm { x, .. } => x < 16,
            Instruction::Random { x, .. } => x < 16,
            Instruction::SkipEqReg { x, y } => x < 16 && y < 16,
            Instruction::SkipNeReg { x, y } => x < 16 && y < 16,
            Instruction::Move { x, y } => x < 16 && y < 16,
            Instruction::Or { x, y } => x < 16 && y < 16,
            Instruction::And { x, y } => x < 16 && y < 16,
            Instruction::Xor { x, y } => x < 16 && y < 16,
            Instruction::AddCarry { x, y } => x < 16 && y < 16,
            Instruction::Sub { x, y } => x < 16 && y < 16,
            Instruction::SubReverse { x, y } => x < 16 && y < 16,
            Instruction::Draw { x, y, n } => x < 16 && y < 16 && n < 16,
            Instruction::ShiftRight { x } => x < 16,
            Instruction::ShiftLeft { x } => x < 16,
            Instruction::SkipKey { x } => x < 16,
            Instruction::SkipNotKey { x } => x < 16,
            Instruction::ReadDelay { x } => x < 16,
            Instruction::WaitKey { x } => x < 16,
            Instruction::SetDelay { x } => x < 16,
            Instruction::SetSound { x } => x < 16,
            Instruction::AddIndex { x } => x < 16,
            Instruction::FontGlyph { x } => x < 16,
            Instruction::StoreBcd { x } => x < 16,
            Instruction::StoreRegs { x } => x < 16,
            Instruction::LoadRegs { x } => x < 16,
            _ => true,
        }
    }
}

/// The instruction that a 16-bit opcode denotes, read from its four nibbles
/// `a x y n` (most significant first), `nnn` (low 12 bits) and `kk` (low byte).
pub open spec fn decode_spec(op: u16) -> Instruction {
    let a = op / 0x1000;
    let x = ((op / 0x100) % 0x10) as u8;
    let y = ((op / 0x10) % 0x10) as u8;
    let n = (op % 0x10) as u8;
    let nnn = (op % 0x1000) as u16;
    let kk = (op % 0x100) as u8;
    if op == 0x00E0 {
        Instruction::ClearScreen
    } else if op == 0x00EE {
        Instruction::Return
    } else if a == 0x1 {
        Instruction::Jump { addr: nnn }
    } else if a == 0x2 {
        Instruction::Call { addr: nnn }
    } else if a == 0x3 {
        Instruction::SkipEqImm { x, kk }
    } else if a == 0x4 {
        Instruction::SkipNeImm { x, kk }
    } else if a == 0x5 && n == 0 {
        Instruction::SkipEqReg { x, y }
    } else if a == 0x6 {
        Instruction::LoadImm { x, kk }
    } else if a == 0x7 {
        Instruction::AddImm { x, kk }
    } else if a == 0x8 && n == 0x0 {
        Instruction::Move { x, y }
    } else if a == 0x8 && n == 0x1 {
        Instruction::Or { x, y }
    } else if a == 0x8 && n == 0x2 {
        Instruction::And { x, y }
    } else if a == 0x8 && n == 0x3 {
        Instruction::Xor { x, y }
    } else if a == 0x8 && n == 0x4 {
        Instruction::AddCarry { x, y }
    } else if a == 0x8 && n == 0x5 {
        Instruction::Sub { x, y }
    } else if a == 0x8 && n == 0x6 {
        Instruction::ShiftRight { x }
    } else if a == 0x8 && n == 0x7 {
        Instruction::SubReverse { x, y }
    } else if a == 0x8 && n == 0xE {
        Instruction::ShiftLeft { x }
    } else if a == 0x9 && n == 0 {
        Instruction::SkipNeReg { x, y }
    } else if a == 0xA {
        Instruction::LoadIndex { addr: nnn }
    } else if a == 0xB {
        Instruction::JumpOffset { addr: nnn }
    } else if a == 0xC {
        Instruction::Random { x, kk }
    } else if a == 0xD {
        Instruction::Draw { x, y, n }
    } else if a == 0xE && kk == 0x9E {
        Instruction::SkipKey { x }
    } else if a == 0xE && kk == 0xA1 {
        Instruction::SkipNotKey { x }
    } else if a == 0xF && kk == 0x07 {
        Instruction::ReadDelay { x }
    } else if a == 0xF && kk == 0x0A {
        Instruction::WaitKey { x }
    } else if a == 0xF && kk == 0x15 {
        Instruction::SetDelay { x }
    } else if a == 0xF && kk == 0x18 {
        Instruction::SetSound { x }
    } else if a == 0xF && kk == 0x1E {
        Instruction::AddIndex { x }
    } else if a == 0xF && kk == 0x29 {
        Instruction::FontGlyph { x }
    } else if a == 0xF && kk == 0x33 {
        Instruction::StoreBcd { x }
    } else if a == 0xF && kk == 0x55 {
        Instruction::StoreRegs { x }
    } else if a == 0xF && kk == 0x65 {
        Instruction::LoadRegs { x }
    } else {
        Instruction::Unknown { opcode: op }
    }
}

/// Decodes an opcode; every decoded instruction has its operands in range.
pub fn decode(op: u16) -> (r: Instruction)
    ensures
        r == decode_spec(op),
        r.wf(),
{
    let a: u16 = op / 0x1000;
    let x: u8 = ((op / 0x100) % 0x10) as u8;
    let y: u8 = ((op / 0x10) % 0x10) as u8;
    let n: u8 = (op % 0x10) as u8;
    let nnn: u16 = op % 0x1000;
    let kk: u8 = (op % 0x100) as u8;
    if op == 0x00E0 {
        Instruction::ClearScreen
    } else if op == 0x00EE {
        Instruction::Return
    } else if a == 0x1 {
        Instruction::Jump { addr: nnn }
    } else if a == 0x2 {
        Instruction::Call { addr: nnn }
    } else if a == 0x3 {
        Instruction::SkipEqImm { x, kk }
    } else if a == 0x4 {
        Instruction::SkipNeImm { x, kk }
    } else if a == 0x5 && n == 0 {
        Instruction::SkipEqReg { x, y }
    } else if a == 0x6 {
        Instruction::LoadImm { x, kk }
    } else if a == 0x7 {
        Instruction::AddImm { x, kk }
    } else if a == 0x8 {
        match n {
            0x0 => Instruction::Move { x, y },
            0x1 => Instruction::Or { x, y },
            0x2 => Instruction::And { x, y },
            0x3 => Instruction::Xor { x, y },
            0x4 => Instruction::AddCarry { x, y },
            0x5 => Instruction::Sub { x, y },
            0x6 => Instruction::ShiftRight { x },
            0x7 => Instruction::SubReverse { x, y },
            0xE => Instruction::ShiftLeft { x },
            _ => Instruction::Unknown { opcode: op },
        }
    } else if a == 0x9 && n == 0 {
        Instruction::SkipNeReg { x, y }
    } else if a == 0xA {
        Instruction::LoadIndex { addr: nnn }
    } else if a == 0xB {
        Instruction::JumpOffset { addr: nnn }
    } else if a == 0xC {
        Instruction::Random { x, kk }
    } else if a == 0xD {
        Instruction::Draw { x, y, n }
    } else if a == 0xE && kk == 0x9E {
        Instruction::SkipKey { x }
    } else if a == 0xE && kk == 0xA1 {
        Instruction::SkipNotKey { x }
    } else if a == 0xF {
        match kk {
            0x07 => Instruction::ReadDelay { x },
            0x0A => Instruction::WaitKey { x },
            0x15 => Instruction::SetDelay { x },
            0x18 => Instruction::SetSound { x },
            0x1E => Instruction::AddIndex { x },
            0x29 => Instruction::FontGlyph { x },
            0x33 => Instruction::StoreBcd { x },
            0x55 => Instruction::StoreRegs { x },
            0x65 => Instruction::LoadRegs { x },
            _ => Instruction::Unknown { opcode: op },
        }
    } else {
        Instruction::Unknown { opcode: op }
    }
}

} // verus!
