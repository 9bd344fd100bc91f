//! The instruction set and the decoding of instruction words.

use vstd::prelude::*;

verus! {

/// One decoded instruction. `x` and `y` are register numbers, `nn` a byte,
/// `n` a nibble and `addr` a 12-bit address.
#[derive(Clone, Copy, Debug, PartialEq, Eq, Structural)]
pub enum Instruction {
    /// 00E0: clear the frame buffer.
    ClearScreen,
    /// 00EE: return from a subroutine.
    Return,
    /// 0NNN: call the machine routine at `addr`; behaves like `Call`.
    SysCall { addr: u16 },
    /// 1NNN: jump to `addr`.
    Jump { addr: u16 },
    /// 2NNN: call the subroutine at `addr`.
    Call { addr: u16 },
    /// 3XNN: skip the next instruction if Vx equals `nn`.
    SkipEqImm { x: u8, nn: u8 },
    /// 4XNN: skip the next instruction if Vx differs from `nn`.
    SkipNeImm { x: u8, nn: u8 },
    /// 5XY0: skip the next instruction if Vx equals Vy.
    SkipEqReg { x: u8, y: u8 },
    /// 6XNN: Vx = `nn`.
    LoadImm { x: u8, nn: u8 },
    /// 7XNN: Vx = Vx + `nn`, wrapping; VF is not written.
    AddImm { x: u8, nn: u8 },
    /// 8XY0: Vx = Vy.
    Move { x: u8, y: u8 },
    /// 8XY1: Vx = Vx OR Vy.
    Or { x: u8, y: u8 },
    /// 8XY2: Vx = Vx AND Vy.
    And { x: u8, y: u8 },
    /// 8XY3: Vx = Vx XOR Vy.
    Xor { x: u8, y: u8 },
    /// 8XY4: Vx = Vx + Vy, wrapping; VF = 1 if the sum fits in a byte, else 0.
    AddReg { x: u8, y: u8 },
    /// 8XY5: Vx = Vx - Vy, wrapping; VF = 1 if Vx is below Vy, else 0.
    SubReg { x: u8, y: u8 },
    /// 8XY6: VF = lowest bit of Vx; Vx is shifted right by one.
    ShiftRight { x: u8 },
    /// 8XY7: Vx = Vy - Vx, wrapping; VF = 1 if Vy is below Vx, else 0.
    SubFrom { x: u8, y: u8 },
    /// 8XYE: VF = highest bit of Vx; Vx is shifted left by one.
    ShiftLeft { x: u8 },
    /// 9XY0: skip the next instruction if Vx differs from Vy.
    SkipNeReg { x: u8, y: u8 },
    /// ANNN: I = `addr`.
    LoadIndex { addr: u16 },
    /// BNNN: jump to V0 + `addr`.
    JumpOffset { addr: u16 },
    /// CXNN: Vx = random byte AND `nn`.
    Random { x: u8, nn: u8 },
    /// DXYN: draw the sprite of `n` rows at memory[I..] at (Vx, Vy); VF = collision.
    Draw { x: u8, y: u8, n: u8 },
    /// EX9E: skip the next instruction if the key in Vx is pressed.
    SkipKeyPressed { x: u8 },
    /// EXA1: skip the next instruction if the key in Vx is not pressed.
    SkipKeyNotPressed { x: u8 },
    /// FX07: Vx = delay timer.
    ReadDelay { x: u8 },
    /// FX0A: Vx = lowest pressed key; without one, the instruction is run again.
    WaitKey { x: u8 },
    /// FX15: delay timer = Vx.
    SetDelay { x: u8 },
    /// FX18: sound timer = Vx.
    SetSound { x: u8 },
    /// FX1E: I = I + Vx.
    AddIndex { x: u8 },
    /// FX29: I = address of the font sprite for the digit in Vx.
    FontAddr { x: u8 },
    /// FX33: store the three decimal digits of Vx at I, I+1, I+2.
    StoreBcd { x: u8 },
    /// FX55: store V0..=Vx at memory[I..].
    StoreRegs { x: u8 },
    /// FX65: load V0..=Vx from memory[I..].
    LoadRegs { x: u8 },
}

/// The four nibbles and the two longer operands of an instruction word.
pub struct Fields {
    pub op: u8,
    pub x: u8,
    pub y: u8,
    pub n: u8,
    pub nn: u8,
    pub nnn: u16,
}

/// The operands of the word `opcode`: its hexadecimal digits from the left
/// (`op`, `x`, `y`, `n`), its low byte `nn` and its low twelve bits `nnn`.
pub open spec fn fields_of(opcode: u16) -> Fields {
    Fields {
        op: (opcode / 4096) as u8,
        x: (opcode / 256 % 16) as u8,
        y: (opcode / 16 % 16) as u8,
        n: (opcode % 16) as u8,
        nn: (opcode % 256) as u8,
        nnn: opcode % 4096,
    }
}

/// The instruction that the word `opcode` stands for. Words of the groups 5,
/// 8, 9, E and F whose last digits name no instruction of their own are taken
/// as the last instruction of their group (5XY0, 8XYE, 9XY0, EXA1, FX65).
pub open spec fn decode_spec(opcode: u16) -> Instruction {
    let f = fields_of(opcode);
    if f.op == 0x0 {
        if opcode == 0x00E0 {
            Instruction::ClearScreen
        } else if opcode == 0x00EE {
            Instruction::Return
        } else {
            Instruction::SysCall { addr: f.nnn }
        }
    } else if f.op == 0x1 {
        Instruction::Jump { addr: f.nnn }
    } else if f.op == 0x2 {
        Instruction::Call { addr: f.nnn }
    } else if f.op == 0x3 {
        Instruction::SkipEqImm { x: f.x, nn: f.nn }
    } else if f.op == 0x4 {
        Instruction::SkipNeImm { x: f.x, nn: f.nn }
    } else if f.op == 0x5 {
        Instruction::SkipEqReg { x: f.x, y: f.y }
    } else if f.op == 0x6 {
        Instruction::LoadImm { x: f.x, nn: f.nn }
    } else if f.op == 0x7 {
        Instruction::AddImm { x: f.x, nn: f.nn }
    } else if f.op == 0x8 {
        if f.n == 0x0 {
            Instruction::Move { x: f.x, y: f.y }
        } else if f.n == 0x1 {
            Instruction::Or { x: f.x, y: f.y }
        } else if f.n == 0x2 {
            Instruction::And { x: f.x, y: f.y }
        } else if f.n == 0x3 {
            Instruction::Xor { x: f.x, y: f.y }
        } else if f.n == 0x4 {
            Instruction::AddReg { x: f.x, y: f.y }
        } else if f.n == 0x5 {
            Instruction::SubReg { x: f.x, y: f.y }
        } else if f.n == 0x6 {
            Instruction::ShiftRight { x: f.x }
        } else if f.n == 0x7 {
            Instruction::SubFrom { x: f.x, y: f.y }
        } else {
            Instruction::ShiftLeft { x: f.x }
        }
    } else if f.op == 0x9 {
        Instruction::SkipNeReg { x: f.x, y: f.y }
    } else if f.op == 0xA {
        Instruction::LoadIndex { addr: f.nnn }
    } else if f.op == 0xB {
        Instruction::JumpOffset { addr: f.nnn }
    } else if f.op == 0xC {
        Instruction::Random { x: f.x, nn: f.nn }
    } else if f.op == 0xD {
        Instruction::Draw { x: f.x, y: f.y, n: f.n }
    } else if f.op == 0xE {
        if f.nn == 0x9E {
            Instruction::SkipKeyPressed { x: f.x }
        } else {
            Instruction::SkipKeyNotPressed { x: f.x }
        }
    } else {
        if f.nn == 0x07 {
            Instruction::ReadDelay { x: f.x }
        } else if f.nn == 0x0A {
            Instruction::WaitKey { x: f.x }
        } else if f.nn == 0x15 {
            Instruction::SetDelay { x: f.x }
        } else if f.nn == 0x18 {
            Instruction::SetSound { x: f.x }
        } else if f.nn == 0x1E {
            Instruction::AddIndex { x: f.x }
        } else if f.nn == 0x29 {
            Instruction::FontAddr { x: f.x }
        } else if f.nn == 0x33 {
            Instruction::StoreBcd { x: f.x }
        } else if f.nn == 0x55 {
            Instruction::StoreRegs { x: f.x }
        } else {
            Instruction::LoadRegs { x: f.x }
        }
    }
}

impl Instruction {
    /// Register numbers and the row count are below 16, addresses below 4096.
    pub open spec fn well_formed(self) -> bool {
        match self {
            Instruction::ClearScreen | Instruction::Return => true,
            Instruction::SysCall { addr }
            | Instruction::Jump { addr }
            | Instruction::Call { addr }
            | Instruction::LoadIndex { addr }
            | Instruction::JumpOffset { addr } => addr < 4096,
            Instruction::SkipEqImm { x, nn }
            | Instruction::SkipNeImm { x, nn }
            | Instruction::LoadImm { x, nn }
            | Instruction::AddImm { x, nn }
            | Instruction::Random { x, nn } => x < 16,
            Instruction::SkipEqReg { x, y }
            | Instruction::Move { x, y }
            | Instruction::Or { x, y }
            | Instruction::And { x, y }
            | Instruction::Xor { x, y }
            | Instruction::AddReg { x, y }
            | Instruction::SubReg { x, y }
            | Instruction::SubFrom { x, y }
            | Instruction::SkipNeReg { x, y } => x < 16 && y < 16,
            Instruction::Draw { x, y, n } => x < 16 && y < 16 && n < 16,
            Instruction::ShiftRight { x }
            | Instruction::ShiftLeft { x }
            | Instruction::SkipKeyPressed { x }
            | Instruction::SkipKeyNotPressed { x }
            | Instruction::ReadDelay { x }
            | Instruction::WaitKey { x }
            | Instruction::SetDelay { x }
            | Instruction::SetSound { x }
            | Instruction::AddIndex { x }
            | Instruction::FontAddr { x }
            | Instruction::StoreBcd { x }
            | Instruction::StoreRegs { x }
            | Instruction::LoadRegs { x } => x < 16,
        }
    }
}

/// Every instruction word decodes to a well-formed instruction.
pub proof fn lemma_decode_well_formed(opcode: u16)
    ensures
        decode_spec(opcode).well_formed(),
{
}

/// Splits an instruction word into its operands.
pub fn split(opcode: u16) -> (f: Fields)
    ensures
        f == fields_of(opcode),
        f.op < 16,
        f.x < 16,
        f.y < 16,
        f.n < 16,
        f.nnn < 4096,
{
    assert((opcode & 0xF000) >> 12 == opcode / 4096) by (bit_vector);
    assert((opcode & 0x0F00) >> 8 == opcode / 256 % 16) by (bit_vector);
    assert((opcode & 0x00F0) >> 4 == opcode / 16 % 16) by (bit_vector);
    assert(opcode & 0x000F == opcode % 16) by (bit_vector);
    assert(opcode & 0x00FF == opcode % 256) by (bit_vector);
    assert(opcode & 0x0FFF == opcode % 4096) by (bit_vector);
    Fields {
        op: ((opcode & 0xF000) >> 12) as u8,
        x: ((opcode & 0x0F00) >> 8) as u8,
        y: ((opcode & 0x00F0) >> 4) as u8,
        n: (opcode & 0x000F) as u8,
        nn: (opcode & 0x00FF) as u8,
        nnn: opcode & 0x0FFF,
    }
}

/// Decodes an instruction word.
pub fn decode(opcode: u16) -> (instruction: Instruction)
    ensures
        instruction == decode_spec(opcode),
        instruction.well_formed(),
{
    let f = split(opcode);
    let Fields { op, x, y, n, nn, nnn } = f;
    match op {
        0x0 => {
            if opcode == 0x00E0 {
                Instruction::ClearScreen
            } else if opcode == 0x00EE {
                Instruction::Return
            } else {
                Instruction::SysCall { addr: nnn }
            }
        },
        0x1 => Instruction::Jump { addr: nnn },
        0x2 => Instruction::Call { addr: nnn },
        0x3 => Instruction::SkipEqImm { x, nn },
        0x4 => Instruction::SkipNeImm { x, nn },
        0x5 => Instruction::SkipEqReg { x, y },
        0x6 => Instruction::LoadImm { x, nn },
        0x7 => Instruction::AddImm { x, nn },
        0x8 => match n {
            0x0 => Instruction::Move { x, y },
            0x1 => Instruction::Or { x, y },
            0x2 => Instruction::And { x, y },
            0x3 => Instruction::Xor { x, y },
            0x4 => Instruction::AddReg { x, y },
            0x5 => Instruction::SubReg { x, y },
            0x6 => Instruction::ShiftRight { x },
            0x7 => Instruction::SubFrom { x, y },
            _ => Instruction::ShiftLeft { x },
        },
        0x9 => Instruction::SkipNeReg { x, y },
        0xA => Instruction::LoadIndex { addr: nnn },
        0xB => Instruction::JumpOffset { addr: nnn },
        0xC => Instruction::Random { x, nn },
        0xD => Instruction::Draw { x, y, n },
        0xE => match nn {
            0x9E => Instruction::SkipKeyPressed { x },
            _ => Instruction::SkipKeyNotPressed { x },
        },
        _ => match nn {
            0x07 => Instruction::ReadDelay { x },
            0x0A => Instruction::WaitKey { x },
            0x15 => Instruction::SetDelay { x },
            0x18 => Instruction::SetSound { x },
            0x1E => Instruction::AddIndex { x },
            0x29 => Instruction::FontAddr { x },
            0x33 => Instruction::StoreBcd { x },
            0x55 => Instruction::StoreRegs { x },
            _ => Instruction::LoadRegs { x },
        },
    }
}

} // verus!
