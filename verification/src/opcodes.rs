//! The instruction set: one tagged variant per operation, and the total,
//! pure decoder from a 16-bit big-endian instruction word.
//!
//! Bit layout of a word: op = bits 12-15, x = bits 8-11, y = bits 4-7,
//! n = bits 0-3, nn = the low byte, nnn = the low 12 bits. The top nibble
//! selects a primary group; groups 0x8, 0xE and 0xF dispatch further on a
//! secondary nibble or byte. Unrecognised words decode to `Unknown`.

use vstd::prelude::*;

verus! {

/// A decoded instruction.
#[derive(Debug, Clone, Copy, PartialEq, Eq, Structural)]
#[allow(non_camel_case_types)]
pub enum OpCode {
    Unknown,

    Raw_Call { nnn: u16 },

    Disp_Clear,
    Disp { x: usize, y: usize, n: u8 },

    Flow_Return,
    Flow_Jump { nnn: u16 },
    Flow_Call { nnn: u16 },
    Flow_Jump_Offset { nnn: u16 },

    Cond_Eq_Const { x: usize, nn: u8 },
    Cond_Neq_Const { x: usize, nn: u8 },
    Cond_Eq_Reg { x: usize, y: usize },
    Cond_Neq_Reg { x: usize, y: usize },

    Const_Set_Reg { x: usize, nn: u8 },
    Const_Add_Reg { x: usize, nn: u8 },

    Assign { x: usize, y: usize },

    BitOp_Or { x: usize, y: usize },
    BitOp_And { x: usize, y: usize },
    BitOp_Xor { x: usize, y: usize },
    BitOp_Shift_Right { x: usize, y: usize },
    BitOp_Shift_Left { x: usize, y: usize },

    Math_Add { x: usize, y: usize },
    Math_Minus { x: usize, y: usize },
    Math_Minus_Reverse { x: usize, y: usize },

    MEM_Set_I { nnn: u16 },
    MEM_Add_I { x: usize },
    MEM_Set_Sprite_I { x: usize },
    MEM_Reg_Dump { x: usize },
    MEM_Reg_Load { x: usize },

    Rand { x: usize, nn: u8 },

    BCD { x: usize },

    Timer_Delay_Get { x: usize },
    Timer_Delay_Set { x: usize },

    Sound_Set { x: usize },

    KeyOp_Skip_Pressed { x: usize },
    KeyOp_Skip_Not_Pressed { x: usize },
    KeyOp_Await { x: usize },
}

/// The decoding function as a mathematical map: every 16-bit word is taken
/// to exactly one variant, with fields cut out of the word by the bit
/// layout above.
pub open spec fn spec_decode(code: u16) -> OpCode {
    let op = (code & 0xF000) >> 12;
    let x = ((code & 0x0F00) >> 8) as usize;
    let y = ((code & 0x00F0) >> 4) as usize;
    let n = (code & 0x000F) as u8;
    let nn = (code & 0x00FF) as u8;
    let nnn = code & 0x0FFF;
    if op == 0x0 {
        if nnn == 0x0E0 {
            OpCode::Disp_Clear
        } else if nnn == 0x0EE {
            OpCode::Flow_Return
        } else {
            OpCode::Raw_Call { nnn }
        }
    } else if op == 0x1 {
        OpCode::Flow_Jump { nnn }
    } else if op == 0x2 {
        OpCode::Flow_Call { nnn }
    } else if op == 0x3 {
        OpCode::Cond_Eq_Const { x, nn }
    } else if op == 0x4 {
        OpCode::Cond_Neq_Const { x, nn }
    } else if op == 0x5 {
        OpCode::Cond_Eq_Reg { x, y }
    } else if op == 0x6 {
        OpCode::Const_Set_Reg { x, nn }
    } else if op == 0x7 {
        OpCode::Const_Add_Reg { x, nn }
    } else if op == 0x8 {
        let sub = code & 0x000F;
        if sub == 0x0 {
            OpCode::Assign { x, y }
        } else if sub == 0x1 {
            OpCode::BitOp_Or { x, y }
        } else if sub == 0x2 {
            OpCode::BitOp_And { x, y }
        } else if sub == 0x3 {
            OpCode::BitOp_Xor { x, y }
        } else if sub == 0x4 {
            OpCode::Math_Add { x, y }
        } else if sub == 0x5 {
            OpCode::Math_Minus { x, y }
        } else if sub == 0x6 {
            OpCode::BitOp_Shift_Right { x, y }
        } else if sub == 0x7 {
            OpCode::Math_Minus_Reverse { x, y }
        } else if sub == 0xE {
            OpCode::BitOp_Shift_Left { x, y }
        } else {
            OpCode::Unknown
        }
    } else if op == 0x9 {
        OpCode::Cond_Neq_Reg { x, y }
    } else if op == 0xA {
        OpCode::MEM_Set_I { nnn }
    } else if op == 0xB {
        OpCode::Flow_Jump_Offset { nnn }
    } else if op == 0xC {
        OpCode::Rand { x, nn }
    } else if op == 0xD {
        OpCode::Disp { x, y, n }
    } else if op == 0xE {
        let sub = code & 0x00FF;
        if sub == 0x9E {
            OpCode::KeyOp_Skip_Pressed { x }
        } else if sub == 0xA1 {
            OpCode::KeyOp_Skip_Not_Pressed { x }
        } else {
            OpCode::Unknown
        }
    } else if op == 0xF {
        let sub = code & 0x00FF;
        if sub == 0x07 {
            OpCode::Timer_Delay_Get { x }
        } else if sub == 0x0A {
            OpCode::KeyOp_Await { x }
        } else if sub == 0x15 {
            OpCode::Timer_Delay_Set { x }
        } else if sub == 0x18 {
            OpCode::Sound_Set { x }
        } else if sub == 0x1E {
            OpCode::MEM_Add_I { x }
        } else if sub == 0x29 {
            OpCode::MEM_Set_Sprite_I { x }
        } else if sub == 0x33 {
            OpCode::BCD { x }
        } else if sub == 0x55 {
            OpCode::MEM_Reg_Dump { x }
        } else if sub == 0x65 {
            OpCode::MEM_Reg_Load { x }
        } else {
            OpCode::Unknown
        }
    } else {
        OpCode::Unknown
    }
}

/// Decode one instruction word. Total: every word yields exactly one
/// variant, `Unknown` where no operation matches.
pub fn decode(code: u16) -> (r: OpCode)
    ensures
        r == spec_decode(code),
{
    let op = (code & 0xF000) >> 12;
    let x = ((code & 0x0F00) >> 8) as usize;
    let y = ((code & 0x00F0) >> 4) as usize;
    let n = (code & 0x000F) as u8;
    let nn = (code & 0x00FF) as u8;
    let nnn = code & 0x0FFF;

    match op {
        0x0 => {
            if nnn == 0x0E0 {
                OpCode::Disp_Clear
            } else if nnn == 0x0EE {
                OpCode::Flow_Return
            } else {
                OpCode::Raw_Call { nnn }
            }
        },
        0x1 => OpCode::Flow_Jump { nnn },
        0x2 => OpCode::Flow_Call { nnn },
        0x3 => OpCode::Cond_Eq_Const { x, nn },
        0x4 => OpCode::Cond_Neq_Const { x, nn },
        0x5 => OpCode::Cond_Eq_Reg { x, y },
        0x6 => OpCode::Const_Set_Reg { x, nn },
        0x7 => OpCode::Const_Add_Reg { x, nn },
        0x8 => {
            let sub = code & 0x000F;
            match sub {
                0x0 => OpCode::Assign { x, y },
                0x1 => OpCode::BitOp_Or { x, y },
                0x2 => OpCode::BitOp_And { x, y },
                0x3 => OpCode::BitOp_Xor { x, y },
                0x4 => OpCode::Math_Add { x, y },
                0x5 => OpCode::Math_Minus { x, y },
                0x6 => OpCode::BitOp_Shift_Right { x, y },
                0x7 => OpCode::Math_Minus_Reverse { x, y },
                0xE => OpCode::BitOp_Shift_Left { x, y },
                _ => OpCode::Unknown,
            }
        },
        0x9 => OpCode::Cond_Neq_Reg { x, y },
        0xA => OpCode::MEM_Set_I { nnn },
        0xB => OpCode::Flow_Jump_Offset { nnn },
        0xC => OpCode::Rand { x, nn },
        0xD => OpCode::Disp { x, y, n },
        0xE => {
            let sub = code & 0x00FF;
            match sub {
                0x9E => OpCode::KeyOp_Skip_Pressed { x },
                0xA1 => OpCode::KeyOp_Skip_Not_Pressed { x },
                _ => OpCode::Unknown,
            }
        },
        0xF => {
            let sub = code & 0x00FF;
            match sub {
                0x07 => OpCode::Timer_Delay_Get { x },
                0x0A => OpCode::KeyOp_Await { x },
                0x15 => OpCode::Timer_Delay_Set { x },
                0x18 => OpCode::Sound_Set { x },
                0x1E => OpCode::MEM_Add_I { x },
                0x29 => OpCode::MEM_Set_Sprite_I { x },
                0x33 => OpCode::BCD { x },
                0x55 => OpCode::MEM_Reg_Dump { x },
                0x65 => OpCode::MEM_Reg_Load { x },
                _ => OpCode::Unknown,
            }
        },
        _ => OpCode::Unknown,
    }
}

} // verus!
