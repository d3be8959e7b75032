use chip8_vm::opcodes::OpCode;
use chip8_vm::opcodes::decode as decode_word;

#[test]
fn decode() {
    let cases: Vec<(u16, OpCode)> = vec![
        (0x0123, OpCode::Raw_Call { nnn: 0x123 }),
        (0x00E0, OpCode::Disp_Clear),
        (0x00EE, OpCode::Flow_Return),
        (0x1ABC, OpCode::Flow_Jump { nnn: 0xABC }),
        (0x2ABC, OpCode::Flow_Call { nnn: 0xABC }),
        (0x3123, OpCode::Cond_Eq_Const { x: 0x1, nn: 0x23 }),
        (0x4123, OpCode::Cond_Neq_Const { x: 0x1, nn: 0x23 }),
        (0x5120, OpCode::Cond_Eq_Reg { x: 0x1, y: 0x2 }),
        (0x6123, OpCode::Const_Set_Reg { x: 0x1, nn: 0x23 }),
        (0x7123, OpCode::Const_Add_Reg { x: 0x1, nn: 0x23 }),
        (0x8120, OpCode::Assign { x: 0x1, y: 0x2 }),
        (0x8121, OpCode::BitOp_Or { x: 0x1, y: 0x2 }),
        (0x8122, OpCode::BitOp_And { x: 0x1, y: 0x2 }),
        (0x8123, OpCode::BitOp_Xor { x: 0x1, y: 0x2 }),
        (0x8124, OpCode::Math_Add { x: 0x1, y: 0x2 }),
        (0x8125, OpCode::Math_Minus { x: 0x1, y: 0x2 }),
        (0x8126, OpCode::BitOp_Shift_Right { x: 0x1, y: 0x2 }),
        (0x8127, OpCode::Math_Minus_Reverse { x: 0x1, y: 0x2 }),
        (0x812E, OpCode::BitOp_Shift_Left { x: 0x1, y: 0x2 }),
        (0x9120, OpCode::Cond_Neq_Reg { x: 0x1, y: 0x2 }),
        (0xA123, OpCode::MEM_Set_I { nnn: 0x123 }),
        (0xB123, OpCode::Flow_Jump_Offset { nnn: 0x123 }),
        (0xC123, OpCode::Rand { x: 0x1, nn: 0x23 }),
        (0xD123, OpCode::Disp { x: 0x1, y: 0x2, n: 3 }),
        (0xE19E, OpCode::KeyOp_Skip_Pressed { x: 0x1 }),
        (0xE1A1, OpCode::KeyOp_Skip_Not_Pressed { x: 0x1 }),
        (0xF107, OpCode::Timer_Delay_Get { x: 0x1 }),
        (0xF10A, OpCode::KeyOp_Await { x: 0x1 }),
        (0xF115, OpCode::Timer_Delay_Set { x: 0x1 }),
        (0xF118, OpCode::Sound_Set { x: 0x1 }),
        (0xF11E, OpCode::MEM_Add_I { x: 0x1 }),
        (0xF129, OpCode::MEM_Set_Sprite_I { x: 0x1 }),
        (0xF133, OpCode::BCD { x: 0x1 }),
        (0xF155, OpCode::MEM_Reg_Dump { x: 0x1 }),
        (0xF165, OpCode::MEM_Reg_Load { x: 0x1 }),
    ];

    for (code, expected) in cases {
        assert_eq!(decode_word(code), expected);
    }
}

#[test]
fn decode_unknown_words() {
    assert_eq!(decode_word(0x8128), OpCode::Unknown);
    assert_eq!(decode_word(0xE100), OpCode::Unknown);
    assert_eq!(decode_word(0xF1FF), OpCode::Unknown);
}

#[test]
fn decode_total_and_deterministic() {
    for code in 0u32..=0xFFFF {
        let first = decode_word(code as u16);
        let second = decode_word(code as u16);
        assert_eq!(first, second);
    }
}
