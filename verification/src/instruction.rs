//! The instruction decoder: a pure mapping between 16-bit opcode words and
//! typed operations. Every 16-bit value decodes to something; encodings that
//! match no table entry fall through to `Unknown`.

use vstd::prelude::*;
use vstd::arithmetic::div_mod::lemma_fundamental_div_mod_converse;

verus! {

/// A decoded operation. Register operands name one of the 16 general
/// registers; `address` operands are 12-bit memory addresses; `constant`
/// operands are the low byte of the opcode.
#[derive(Clone, Copy, Debug, PartialEq, Eq, Structural)]
pub enum Instruction {
    ClearDisplay,
    Return,
    Jump { address: u16 },
    Call { address: u16 },
    SkipIfRegEqConstant { register: usize, constant: u8 },
    SkipIfRegNotEqConstant { register: usize, constant: u8 },
    SkipIfRegEqReg { register_lhs: usize, register_rhs: usize },
    AssignConstToReg { register: usize, constant: u8 },
    AddConstToReg { register: usize, constant: u8 },
    AssignRegToReg { register_lhs: usize, register_rhs: usize },
    BitwiseOr { register_lhs: usize, register_rhs: usize },
    BitwiseAnd { register_lhs: usize, register_rhs: usize },
    BitwiseXor { register_lhs: usize, register_rhs: usize },
    AddRegToReg { register_lhs: usize, register_rhs: usize },
    SubReg2FromReg1 { register_lhs: usize, register_rhs: usize },
    BitwiseShrBy1 { register: usize },
    SubReg1FromReg2 { register_lhs: usize, register_rhs: usize },
    BitwiseShlBy1 { register: usize },
    CondRegNotEqReg { register_lhs: usize, register_rhs: usize },
    SetAddress { address: u16 },
    JumpWithV0Offset { address: u16 },
    BitwiseAndWithRand { register: usize, constant: u8 },
    DisplaySprite { register_x: usize, register_y: usize, n_bytes: usize },
    SkipIfKeyPressed { register: usize },
    SkipIfKeyNotPressed { register: usize },
    AssignDelayTimerToReg { register: usize },
    AwaitAndSetKeyPress { register: usize },
    SetDelayTimer { register: usize },
    SetSoundTimer { register: usize },
    AddRegToAddressWithoutCarry { register: usize },
    AssignFontSpriteToAddress { register: usize },
    StoreRegBcd { register: usize },
    SaveRegisters { last_register: usize },
    LoadRegisters { last_register: usize },
    Unknown { opcode: u16 },
}

/// High nibble of an opcode word.
pub open spec fn op_h(op: u16) -> int {
    op as int / 0x1000
}

/// Second nibble: the `x` register field.
pub open spec fn op_x(op: u16) -> int {
    (op as int / 0x100) % 0x10
}

/// Third nibble: the `y` register field.
pub open spec fn op_y(op: u16) -> int {
    (op as int / 0x10) % 0x10
}

/// Low nibble: the `n` field.
pub open spec fn op_n(op: u16) -> int {
    op as int % 0x10
}

/// Low byte: the `kk` constant field.
pub open spec fn op_kk(op: u16) -> int {
    op as int % 0x100
}

/// Low 12 bits: the `nnn` address field.
pub open spec fn op_nnn(op: u16) -> int {
    op as int % 0x1000
}

impl Instruction {
    /// Operand fields fit the bit widths the encoding gives them: registers
    /// are 4-bit indices, addresses are 12 bits, sprite heights are 4 bits.
    pub open spec fn wf(self) -> bool {
        match self {
            Instruction::ClearDisplay => true,
            Instruction::Return => true,
            Instruction::Jump { address } => address < 0x1000,
            Instruction::Call { address } => address < 0x1000,
            Instruction::SkipIfRegEqConstant { register, constant } => register < 16,
            Instruction::SkipIfRegNotEqConstant { register, constant } => register < 16,
            Instruction::SkipIfRegEqReg { register_lhs, register_rhs } => register_lhs < 16
                && register_rhs < 16,
            Instruction::AssignConstToReg { register, constant } => register < 16,
            Instruction::AddConstToReg { register, constant } => register < 16,
            Instruction::AssignRegToReg { register_lhs, register_rhs } => register_lhs < 16
                && register_rhs < 16,
            Instruction::BitwiseOr { register_lhs, register_rhs } => register_lhs < 16
                && register_rhs < 16,
            Instruction::BitwiseAnd { register_lhs, register_rhs } => register_lhs < 16
                && register_rhs < 16,
            Instruction::BitwiseXor { register_lhs, register_rhs } => register_lhs < 16
                && register_rhs < 16,
            Instruction::AddRegToReg { register_lhs, register_rhs } => register_lhs < 16
                && register_rhs < 16,
            Instruction::SubReg2FromReg1 { register_lhs, register_rhs } => register_lhs < 16
                && register_rhs < 16,
            Instruction::BitwiseShrBy1 { register } => register < 16,
            Instruction::SubReg1FromReg2 { register_lhs, register_rhs } => register_lhs < 16
                && register_rhs < 16,
            Instruction::BitwiseShlBy1 { register } => register < 16,
            Instruction::CondRegNotEqReg { register_lhs, register_rhs } => register_lhs < 16
                && register_rhs < 16,
            Instruction::SetAddress { address } => address < 0x1000,
            Instruction::JumpWithV0Offset { address } => address < 0x1000,
            Instruction::BitwiseAndWithRand { register, constant } => register < 16,
            Instruction::DisplaySprite { register_x, register_y, n_bytes } => register_x < 16
                && register_y < 16 && n_bytes < 16,
            Instruction::SkipIfKeyPressed { register } => register < 16,
            Instruction::SkipIfKeyNotPressed { register } => register < 16,
            Instruction::AssignDelayTimerToReg { register } => register < 16,
            Instruction::AwaitAndSetKeyPress { register } => register < 16,
            Instruction::SetDelayTimer { register } => register < 16,
            Instruction::SetSoundTimer { register } => register < 16,
            Instruction::AddRegToAddressWithoutCarry { register } => register < 16,
            Instruction::AssignFontSpriteToAddress { register } => register < 16,
            Instruction::StoreRegBcd { register } => register < 16,
            Instruction::SaveRegisters { last_register } => last_register < 16,
            Instruction::LoadRegisters { last_register } => last_register < 16,
            Instruction::Unknown { opcode } => true,
        }
    }
}

/// The decode table: which operation a 16-bit opcode word stands for,
/// resolved by nibble pattern, most specific pattern first.
pub open spec fn decode_spec(op: u16) -> Instruction {
    let h = op_h(op);
    let x = op_x(op);
    let y = op_y(op);
    let n = op_n(op);
    if h == 0x0 && x == 0x0 && y == 0xE && n == 0x0 {
        Instruction::ClearDisplay
    } else if h == 0x0 && x == 0x0 && y == 0xE && n == 0xE {
        Instruction::Return
    } else if h == 0x1 {
        Instruction::Jump { address: op_nnn(op) as u16 }
    } else if h == 0x2 {
        Instruction::Call { address: op_nnn(op) as u16 }
    } else if h == 0x3 {
        Instruction::SkipIfRegEqConstant { register: x as usize, constant: op_kk(op) as u8 }
    } else if h == 0x4 {
        Instruction::SkipIfRegNotEqConstant { register: x as usize, constant: op_kk(op) as u8 }
    } else if h == 0x5 && n == 0x0 {
        Instruction::SkipIfRegEqReg { register_lhs: x as usize, register_rhs: y as usize }
    } else if h == 0x6 {
        Instruction::AssignConstToReg { register: x as usize, constant: op_kk(op) as u8 }
    } else if h == 0x7 {
        Instruction::AddConstToReg { register: x as usize, constant: op_kk(op) as u8 }
    } else if h == 0x8 && n == 0x0 {
        Instruction::AssignRegToReg { register_lhs: x as usize, register_rhs: y as usize }
    } else if h == 0x8 && n == 0x1 {
        Instruction::BitwiseOr { register_lhs: x as usize, register_rhs: y as usize }
    } else if h == 0x8 && n == 0x2 {
        Instruction::BitwiseAnd { register_lhs: x as usize, register_rhs: y as usize }
    } else if h == 0x8 && n == 0x3 {
        Instruction::BitwiseXor { register_lhs: x as usize, register_rhs: y as usize }
    } else if h == 0x8 && n == 0x4 {
        Instruction::AddRegToReg { register_lhs: x as usize, register_rhs: y as usize }
    } else if h == 0x8 && n == 0x5 {
        Instruction::SubReg2FromReg1 { register_lhs: x as usize, register_rhs: y as usize }
    } else if h == 0x8 && n == 0x6 {
        Instruction::BitwiseShrBy1 { register: x as usize }
    } else if h == 0x8 && n == 0x7 {
        Instruction::SubReg1FromReg2 { register_lhs: x as usize, register_rhs: y as usize }
    } else if h == 0x8 && n == 0xE {
        Instruction::BitwiseShlBy1 { register: x as usize }
    } else if h == 0x9 && n == 0x0 {
        Instruction::CondRegNotEqReg { register_lhs: x as usize, register_rhs: y as usize }
    } else if h == 0xA {
        Instruction::SetAddress { address: op_nnn(op) as u16 }
    } else if h == 0xB {
        Instruction::JumpWithV0Offset { address: op_nnn(op) as u16 }
    } else if h == 0xC {
        Instruction::BitwiseAndWithRand { register: x as usize, constant: op_kk(op) as u8 }
    } else if h == 0xD {
        Instruction::DisplaySprite {
            register_x: x as usize,
            register_y: y as usize,
            n_bytes: n as usize,
        }
    } else if h == 0xE && y == 0x9 && n == 0xE {
        Instruction::SkipIfKeyPressed { register: x as usize }
    } else if h == 0xE && y == 0xA && n == 0x1 {
        Instruction::SkipIfKeyNotPressed { register: x as usize }
    } else if h == 0xF && y == 0x0 && n == 0x7 {
        Instruction::AssignDelayTimerToReg { register: x as usize }
    } else if h == 0xF && y == 0x0 && n == 0xA {
        Instruction::AwaitAndSetKeyPress { register: x as usize }
    } else if h == 0xF && y == 0x1 && n == 0x5 {
        Instruction::SetDelayTimer { register: x as usize }
    } else if h == 0xF && y == 0x1 && n == 0x8 {
        Instruction::SetSoundTimer { register: x as usize }
    } else if h == 0xF && y == 0x1 && n == 0xE {
        Instruction::AddRegToAddressWithoutCarry { register: x as usize }
    } else if h == 0xF && y == 0x2 && n == 0x9 {
        Instruction::AssignFontSpriteToAddress { register: x as usize }
    } else if h == 0xF && y == 0x3 && n == 0x3 {
        Instruction::StoreRegBcd { register: x as usize }
    } else if h == 0xF && y == 0x5 && n == 0x5 {
        Instruction::SaveRegisters { last_register: x as usize }
    } else if h == 0xF && y == 0x6 && n == 0x5 {
        Instruction::LoadRegisters { last_register: x as usize }
    } else {
        Instruction::Unknown { opcode: op }
    }
}

/// The opcode word that stands for an operation; the inverse of the decode
/// table on well-formed operations.
pub open spec fn encode_spec(i: Instruction) -> u16 {
    match i {
        Instruction::ClearDisplay => 0x00E0,
        Instruction::Return => 0x00EE,
        Instruction::Jump { address } => (0x1000 + address) as u16,
        Instruction::Call { address } => (0x2000 + address) as u16,
        Instruction::SkipIfRegEqConstant { register, constant } => (0x3000 + register * 0x100
            + constant) as u16,
        Instruction::SkipIfRegNotEqConstant { register, constant } => (0x4000 + register * 0x100
            + constant) as u16,
        Instruction::SkipIfRegEqReg { register_lhs, register_rhs } => (0x5000 + register_lhs
            * 0x100 + register_rhs * 0x10) as u16,
        Instruction::AssignConstToReg { register, constant } => (0x6000 + register * 0x100
            + constant) as u16,
        Instruction::AddConstToReg { register, constant } => (0x7000 + register * 0x100
            + constant) as u16,
        Instruction::AssignRegToReg { register_lhs, register_rhs } => (0x8000 + register_lhs
            * 0x100 + register_rhs * 0x10) as u16,
        Instruction::BitwiseOr { register_lhs, register_rhs } => (0x8001 + register_lhs * 0x100
            + register_rhs * 0x10) as u16,
        Instruction::BitwiseAnd { register_lhs, register_rhs } => (0x8002 + register_lhs * 0x100
            + register_rhs * 0x10) as u16,
        Instruction::BitwiseXor { register_lhs, register_rhs } => (0x8003 + register_lhs * 0x100
            + register_rhs * 0x10) as u16,
        Instruction::AddRegToReg { register_lhs, register_rhs } => (0x8004 + register_lhs * 0x100
            + register_rhs * 0x10) as u16,
        Instruction::SubReg2FromReg1 { register_lhs, register_rhs } => (0x8005 + register_lhs
            * 0x100 + register_rhs * 0x10) as u16,
        Instruction::BitwiseShrBy1 { register } => (0x8006 + register * 0x100) as u16,
        Instruction::SubReg1FromReg2 { register_lhs, register_rhs } => (0x8007 + register_lhs
            * 0x100 + register_rhs * 0x10) as u16,
        Instruction::BitwiseShlBy1 { register } => (0x800E + register * 0x100) as u16,
        Instruction::CondRegNotEqReg { register_lhs, register_rhs } => (0x9000 + register_lhs
            * 0x100 + register_rhs * 0x10) as u16,
        Instruction::SetAddress { address } => (0xA000 + address) as u16,
        Instruction::JumpWithV0Offset { address } => (0xB000 + address) as u16,
        Instruction::BitwiseAndWithRand { register, constant } => (0xC000 + register * 0x100
            + constant) as u16,
        Instruction::DisplaySprite { register_x, register_y, n_bytes } => (0xD000 + register_x
            * 0x100 + register_y * 0x10 + n_bytes) as u16,
        Instruction::SkipIfKeyPressed { register } => (0xE09E + register * 0x100) as u16,
        Instruction::SkipIfKeyNotPressed { register } => (0xE0A1 + register * 0x100) as u16,
        Instruction::AssignDelayTimerToReg { register } => (0xF007 + register * 0x100) as u16,
        Instruction::AwaitAndSetKeyPress { register } => (0xF00A + register * 0x100) as u16,
        Instruction::SetDelayTimer { register } => (0xF015 + register * 0x100) as u16,
        Instruction::SetSoundTimer { register } => (0xF018 + register * 0x100) as u16,
        Instruction::AddRegToAddressWithoutCarry { register } => (0xF01E + register * 0x100) as u16,
        Instruction::AssignFontSpriteToAddress { register } => (0xF029 + register * 0x100) as u16,
        Instruction::StoreRegBcd { register } => (0xF033 + register * 0x100) as u16,
        Instruction::SaveRegisters { last_register } => (0xF055 + last_register * 0x100) as u16,
        Instruction::LoadRegisters { last_register } => (0xF065 + last_register * 0x100) as u16,
        Instruction::Unknown { opcode } => opcode,
    }
}

impl Instruction {
    /// Split the opcode into four nibbles and match them against the fixed
    /// table. Total: every word decodes, unmatched patterns give `Unknown`.
    pub fn decode(opcode: u16) -> (r: Instruction)
        ensures
            r == decode_spec(opcode),
            r.wf(),
    {
        let h = opcode / 0x1000;
        let x = (opcode / 0x100) % 0x10;
        let y = (opcode / 0x10) % 0x10;
        let n = opcode % 0x10;
        let kk = (opcode % 0x100) as u8;
        let nnn = opcode % 0x1000;
        match (h, x, y, n) {
            (0x0, 0x0, 0xE, 0x0) => Instruction::ClearDisplay,
            (0x0, 0x0, 0xE, 0xE) => Instruction::Return,
            (0x1, _, _, _) => Instruction::Jump { address: nnn },
            (0x2, _, _, _) => Instruction::Call { address: nnn },
            (0x3, _, _, _) => Instruction::SkipIfRegEqConstant {
                register: x as usize,
                constant: kk,
            },
            (0x4, _, _, _) => Instruction::SkipIfRegNotEqConstant {
                register: x as usize,
                constant: kk,
            },
            (0x5, _, _, 0x0) => Instruction::SkipIfRegEqReg {
                register_lhs: x as usize,
                register_rhs: y as usize,
            },
            (0x6, _, _, _) => Instruction::AssignConstToReg {
                register: x as usize,
                constant: kk,
            },
            (0x7, _, _, _) => Instruction::AddConstToReg { register: x as usize, constant: kk },
            (0x8, _, _, 0x0) => Instruction::AssignRegToReg {
                register_lhs: x as usize,
                register_rhs: y as usize,
            },
            (0x8, _, _, 0x1) => Instruction::BitwiseOr {
                register_lhs: x as usize,
                register_rhs: y as usize,
            },
            (0x8, _, _, 0x2) => Instruction::BitwiseAnd {
                register_lhs: x as usize,
                register_rhs: y as usize,
            },
            (0x8, _, _, 0x3) => Instruction::BitwiseXor {
                register_lhs: x as usize,
                register_rhs: y as usize,
            },
            (0x8, _, _, 0x4) => Instruction::AddRegToReg {
                register_lhs: x as usize,
                register_rhs: y as usize,
            },
            (0x8, _, _, 0x5) => Instruction::SubReg2FromReg1 {
                register_lhs: x as usize,
                register_rhs: y as usize,
            },
            (0x8, _, _, 0x6) => Instruction::BitwiseShrBy1 { register: x as usize },
            (0x8, _, _, 0x7) => Instruction::SubReg1FromReg2 {
                register_lhs: x as usize,
                register_rhs: y as usize,
            },
            (0x8, _, _, 0xE) => Instruction::BitwiseShlBy1 { register: x as usize },
            (0x9, _, _, 0x0) => Instruction::CondRegNotEqReg {
                register_lhs: x as usize,
                register_rhs: y as usize,
            },
            (0xA, _, _, _) => Instruction::SetAddress { address: nnn },
            (0xB, _, _, _) => Instruction::JumpWithV0Offset { address: nnn },
            (0xC, _, _, _) => Instruction::BitwiseAndWithRand {
                register: x as usize,
                constant: kk,
            },
            (0xD, _, _, _) => Instruction::DisplaySprite {
                register_x: x as usize,
                register_y: y as usize,
                n_bytes: n as usize,
            },
            (0xE, _, 0x9, 0xE) => Instruction::SkipIfKeyPressed { register: x as usize },
            (0xE, _, 0xA, 0x1) => Instruction::SkipIfKeyNotPressed { register: x as usize },
            (0xF, _, 0x0, 0x7) => Instruction::AssignDelayTimerToReg { register: x as usize },
            (0xF, _, 0x0, 0xA) => Instruction::AwaitAndSetKeyPress { register: x as usize },
            (0xF, _, 0x1, 0x5) => Instruction::SetDelayTimer { register: x as usize },
            (0xF, _, 0x1, 0x8) => Instruction::SetSoundTimer { register: x as usize },
            (0xF, _, 0x1, 0xE) => Instruction::AddRegToAddressWithoutCarry {
                register: x as usize,
            },
            (0xF, _, 0x2, 0x9) => Instruction::AssignFontSpriteToAddress {
                register: x as usize,
            },
            (0xF, _, 0x3, 0x3) => Instruction::StoreRegBcd { register: x as usize },
            (0xF, _, 0x5, 0x5) => Instruction::SaveRegisters { last_register: x as usize },
            (0xF, _, 0x6, 0x5) => Instruction::LoadRegisters { last_register: x as usize },
            _ => Instruction::Unknown { opcode },
        }
    }

    /// Assemble the opcode word for an operation.
    pub fn to_opcode(&self) -> (r: u16)
        requires
            self.wf(),
        ensures
            r == encode_spec(*self),
    {
        match *self {
            Instruction::ClearDisplay => 0x00E0,
            Instruction::Return => 0x00EE,
            Instruction::Jump { address } => 0x1000 + address,
            Instruction::Call { address } => 0x2000 + address,
            Instruction::SkipIfRegEqConstant { register, constant } => 0x3000 + (
            register as u16) * 0x100 + (constant as u16),
            Instruction::SkipIfRegNotEqConstant { register, constant } => 0x4000 + (
            register as u16) * 0x100 + (constant as u16),
            Instruction::SkipIfRegEqReg { register_lhs, register_rhs } => 0x5000 + (
            register_lhs as u16) * 0x100 + (register_rhs as u16) * 0x10,
            Instruction::AssignConstToReg { register, constant } => 0x6000 + (register as u16)
                * 0x100 + (constant as u16),
            Instruction::AddConstToReg { register, constant } => 0x7000 + (register as u16) * 0x100
                + (constant as u16),
            Instruction::AssignRegToReg { register_lhs, register_rhs } => 0x8000 + (
            register_lhs as u16) * 0x100 + (register_rhs as u16) * 0x10,
            Instruction::BitwiseOr { register_lhs, register_rhs } => 0x8001 + (register_lhs as u16)
                * 0x100 + (register_rhs as u16) * 0x10,
            Instruction::BitwiseAnd { register_lhs, register_rhs } => 0x8002 + (
            register_lhs as u16) * 0x100 + (register_rhs as u16) * 0x10,
            Instruction::BitwiseXor { register_lhs, register_rhs } => 0x8003 + (
            register_lhs as u16) * 0x100 + (register_rhs as u16) * 0x10,
            Instruction::AddRegToReg { register_lhs, register_rhs } => 0x8004 + (
            register_lhs as u16) * 0x100 + (register_rhs as u16) * 0x10,
            Instruction::SubReg2FromReg1 { register_lhs, register_rhs } => 0x8005 + (
            register_lhs as u16) * 0x100 + (register_rhs as u16) * 0x10,
            Instruction::BitwiseShrBy1 { register } => 0x8006 + (register as u16) * 0x100,
            Instruction::SubReg1FromReg2 { register_lhs, register_rhs } => 0x8007 + (
            register_lhs as u16) * 0x100 + (register_rhs as u16) * 0x10,
            Instruction::BitwiseShlBy1 { register } => 0x800E + (register as u16) * 0x100,
            Instruction::CondRegNotEqReg { register_lhs, register_rhs } => 0x9000 + (
            register_lhs as u16) * 0x100 + (register_rhs as u16) * 0x10,
            Instruction::SetAddress { address } => 0xA000 + address,
            Instruction::JumpWithV0Offset { address } => 0xB000 + address,
            Instruction::BitwiseAndWithRand { register, constant } => 0xC000 + (register as u16)
                * 0x100 + (constant as u16),
            Instruction::DisplaySprite { register_x, register_y, n_bytes } => 0xD000 + (
            register_x as u16) * 0x100 + (register_y as u16) * 0x10 + (n_bytes as u16),
            Instruction::SkipIfKeyPressed { register } => 0xE09E + (register as u16) * 0x100,
            Instruction::SkipIfKeyNotPressed { register } => 0xE0A1 + (register as u16) * 0x100,
            Instruction::AssignDelayTimerToReg { register } => 0xF007 + (register as u16) * 0x100,
            Instruction::AwaitAndSetKeyPress { register } => 0xF00A + (register as u16) * 0x100,
            Instruction::SetDelayTimer { register } => 0xF015 + (register as u16) * 0x100,
            Instruction::SetSoundTimer { register } => 0xF018 + (register as u16) * 0x100,
            Instruction::AddRegToAddressWithoutCarry { register } => 0xF01E + (register as u16)
                * 0x100,
            Instruction::AssignFontSpriteToAddress { register } => 0xF029 + (register as u16)
                * 0x100,
            Instruction::StoreRegBcd { register } => 0xF033 + (register as u16) * 0x100,
            Instruction::SaveRegisters { last_register } => 0xF055 + (last_register as u16) * 0x100,
            Instruction::LoadRegisters { last_register } => 0xF065 + (last_register as u16) * 0x100,
            Instruction::Unknown { opcode } => opcode,
        }
    }
}

/// Nibble fields of a word assembled from a high nibble and a 12-bit address.
proof fn lemma_parts_hnnn(h: int, nnn: int)
    requires
        0 <= h < 0x10,
        0 <= nnn < 0x1000,
    ensures
        op_h((h * 0x1000 + nnn) as u16) == h,
        op_nnn((h * 0x1000 + nnn) as u16) == nnn,
{
    let v = h * 0x1000 + nnn;
    assert(0 <= v < 0x10000);
    assert((v as u16) as int == v);
    lemma_fundamental_div_mod_converse(v, 0x1000, h, nnn);
}

/// Nibble fields of a word assembled from a high nibble, a register nibble,
/// and a constant byte.
proof fn lemma_parts_xkk(h: int, x: int, kk: int)
    requires
        0 <= h < 0x10,
        0 <= x < 0x10,
        0 <= kk < 0x100,
    ensures
        op_h((h * 0x1000 + x * 0x100 + kk) as u16) == h,
        op_x((h * 0x1000 + x * 0x100 + kk) as u16) == x,
        op_kk((h * 0x1000 + x * 0x100 + kk) as u16) == kk,
{
    let v = h * 0x1000 + x * 0x100 + kk;
    assert(0 <= v < 0x10000);
    assert((v as u16) as int == v);
    lemma_fundamental_div_mod_converse(v, 0x1000, h, x * 0x100 + kk);
    lemma_fundamental_div_mod_converse(v, 0x100, h * 0x10 + x, kk);
    lemma_fundamental_div_mod_converse(h * 0x10 + x, 0x10, h, x);
}

/// Nibble fields of a word assembled from all four nibbles.
proof fn lemma_parts_xyn(h: int, x: int, y: int, n: int)
    requires
        0 <= h < 0x10,
        0 <= x < 0x10,
        0 <= y < 0x10,
        0 <= n < 0x10,
    ensures
        op_h((h * 0x1000 + x * 0x100 + y * 0x10 + n) as u16) == h,
        op_x((h * 0x1000 + x * 0x100 + y * 0x10 + n) as u16) == x,
        op_y((h * 0x1000 + x * 0x100 + y * 0x10 + n) as u16) == y,
        op_n((h * 0x1000 + x * 0x100 + y * 0x10 + n) as u16) == n,
{
    let v = h * 0x1000 + x * 0x100 + y * 0x10 + n;
    assert(0 <= v < 0x10000);
    assert((v as u16) as int == v);
    lemma_fundamental_div_mod_converse(v, 0x1000, h, x * 0x100 + y * 0x10 + n);
    lemma_fundamental_div_mod_converse(v, 0x100, h * 0x10 + x, y * 0x10 + n);
    lemma_fundamental_div_mod_converse(h * 0x10 + x, 0x10, h, x);
    lemma_fundamental_div_mod_converse(v, 0x10, h * 0x100 + x * 0x10 + y, n);
    lemma_fundamental_div_mod_converse(h * 0x100 + x * 0x10 + y, 0x10, h * 0x10 + x, y);
}

/// Decoding inverts encoding: every well-formed operation of a documented
/// family comes back unchanged from an encode/decode round trip.
pub proof fn lemma_decode_encode_round_trip(i: Instruction)
    requires
        i.wf(),
        !(i is Unknown),
    ensures
        decode_spec(encode_spec(i)) == i,
{
    match i {
        Instruction::ClearDisplay => {
        },
        Instruction::Return => {
        },
        Instruction::Jump { address } => {
            lemma_parts_hnnn(0x1, address as int);
        },
        Instruction::Call { address } => {
            lemma_parts_hnnn(0x2, address as int);
        },
        Instruction::SkipIfRegEqConstant { register, constant } => {
            lemma_parts_xkk(0x3, register as int, constant as int);
        },
        Instruction::SkipIfRegNotEqConstant { register, constant } => {
            lemma_parts_xkk(0x4, register as int, constant as int);
        },
        Instruction::SkipIfRegEqReg { register_lhs, register_rhs } => {
            lemma_parts_xyn(0x5, register_lhs as int, register_rhs as int, 0x0);
        },
        Instruction::AssignConstToReg { register, constant } => {
            lemma_parts_xkk(0x6, register as int, constant as int);
        },
        Instruction::AddConstToReg { register, constant } => {
            lemma_parts_xkk(0x7, register as int, constant as int);
        },
        Instruction::AssignRegToReg { register_lhs, register_rhs } => {
            lemma_parts_xyn(0x8, register_lhs as int, register_rhs as int, 0x0);
        },
        Instruction::BitwiseOr { register_lhs, register_rhs } => {
            lemma_parts_xyn(0x8, register_lhs as int, register_rhs as int, 0x1);
        },
        Instruction::BitwiseAnd { register_lhs, register_rhs } => {
            lemma_parts_xyn(0x8, register_lhs as int, register_rhs as int, 0x2);
        },
        Instruction::BitwiseXor { register_lhs, register_rhs } => {
            lemma_parts_xyn(0x8, register_lhs as int, register_rhs as int, 0x3);
        },
        Instruction::AddRegToReg { register_lhs, register_rhs } => {
            lemma_parts_xyn(0x8, register_lhs as int, register_rhs as int, 0x4);
        },
        Instruction::SubReg2FromReg1 { register_lhs, register_rhs } => {
            lemma_parts_xyn(0x8, register_lhs as int, register_rhs as int, 0x5);
        },
        Instruction::BitwiseShrBy1 { register } => {
            lemma_parts_xyn(0x8, register as int, 0x0, 0x6);
        },
        Instruction::SubReg1FromReg2 { register_lhs, register_rhs } => {
            lemma_parts_xyn(0x8, register_lhs as int, register_rhs as int, 0x7);
        },
        Instruction::BitwiseShlBy1 { register } => {
            lemma_parts_xyn(0x8, register as int, 0x0, 0xE);
        },
        Instruction::CondRegNotEqReg { register_lhs, register_rhs } => {
            lemma_parts_xyn(0x9, register_lhs as int, register_rhs as int, 0x0);
        },
        Instruction::SetAddress { address } => {
            lemma_parts_hnnn(0xA, address as int);
        },
        Instruction::JumpWithV0Offset { address } => {
            lemma_parts_hnnn(0xB, address as int);
        },
        Instruction::BitwiseAndWithRand { register, constant } => {
            lemma_parts_xkk(0xC, register as int, constant as int);
        },
        Instruction::DisplaySprite { register_x, register_y, n_bytes } => {
            lemma_parts_xyn(0xD, register_x as int, register_y as int, n_bytes as int);
        },
        Instruction::SkipIfKeyPressed { register } => {
            lemma_parts_xyn(0xE, register as int, 0x9, 0xE);
        },
        Instruction::SkipIfKeyNotPressed { register } => {
            lemma_parts_xyn(0xE, register as int, 0xA, 0x1);
        },
        Instruction::AssignDelayTimerToReg { register } => {
            lemma_parts_xyn(0xF, register as int, 0x0, 0x7);
        },
        Instruction::AwaitAndSetKeyPress { register } => {
            lemma_parts_xyn(0xF, register as int, 0x0, 0xA);
        },
        Instruction::SetDelayTimer { register } => {
            lemma_parts_xyn(0xF, register as int, 0x1, 0x5);
        },
        Instruction::SetSoundTimer { register } => {
            lemma_parts_xyn(0xF, register as int, 0x1, 0x8);
        },
        Instruction::AddRegToAddressWithoutCarry { register } => {
            lemma_parts_xyn(0xF, register as int, 0x1, 0xE);
        },
        Instruction::AssignFontSpriteToAddress { register } => {
            lemma_parts_xyn(0xF, register as int, 0x2, 0x9);
        },
        Instruction::StoreRegBcd { register } => {
            lemma_parts_xyn(0xF, register as int, 0x3, 0x3);
        },
        Instruction::SaveRegisters { last_register } => {
            lemma_parts_xyn(0xF, last_register as int, 0x5, 0x5);
        },
        Instruction::LoadRegisters { last_register } => {
            lemma_parts_xyn(0xF, last_register as int, 0x6, 0x5);
        },
        Instruction::Unknown { opcode } => {
        },
    }
}

} // verus!
