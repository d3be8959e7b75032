use chip8_vm::constants::{FONT_SYMBOL_SIZE, PC_START, REGISTER_COUNT};
use chip8_vm::display::Display;
use chip8_vm::errors::Errors;
use chip8_vm::opcodes::OpCode;
use chip8_vm::vm::{Vm, VmFrame};

fn new_vm() -> Vm {
    Vm::new(&vec![0u8, 0], 60, false).unwrap()
}

#[test]
fn op_disp_clear() {
    let mut vm = new_vm();
    let mut frame = VmFrame::new();

    let dirty: Vec<u8> = vec![1u8; 64 * 32];
    vm.display.set_screen(&dirty);

    vm.execute(&mut frame, OpCode::Disp_Clear).unwrap();

    for p in vm.display.get_screen() {
        assert_eq!(*p, 0);
    }
}

#[test]
fn op_flow_call_return() {
    let mut vm = new_vm();
    let mut frame = VmFrame::new();
    frame.PC = 789;

    vm.execute(&mut frame, OpCode::Flow_Call { nnn: 123 }).unwrap();

    assert_eq!(frame.PC, 123);
    assert_eq!(frame.stack.len(), 1);
    assert_eq!(frame.stack[0].return_address, 789);

    vm.execute(&mut frame, OpCode::Flow_Return).unwrap();

    assert_eq!(frame.PC, 789 + 2);
    assert_eq!(frame.stack.len(), 0);
}

#[test]
fn op_return_empty_stack() {
    let mut vm = new_vm();
    let mut frame = VmFrame::new();

    let result = vm.execute(&mut frame, OpCode::Flow_Return);

    assert_eq!(result, Err(Errors::StackEmpty));
    assert_eq!(frame.PC, PC_START + 2);
}

#[test]
fn op_jump() {
    let mut vm = new_vm();
    let mut frame = VmFrame::new();

    vm.execute(&mut frame, OpCode::Flow_Jump { nnn: 123 }).unwrap();

    assert_eq!(frame.PC, 123);
}

#[test]
fn op_jump_offset() {
    let mut vm = new_vm();
    let mut frame = VmFrame::new();
    frame.registers[0] = 6;

    vm.execute(&mut frame, OpCode::Flow_Jump_Offset { nnn: 0x200 }).unwrap();

    assert_eq!(frame.PC, 0x200 + 6);
}

#[test]
fn op_cond_const() {
    let cases: Vec<(u8, OpCode, u16)> = vec![
        (12, OpCode::Cond_Eq_Const { x: 2, nn: 12 }, PC_START + 4),
        (12, OpCode::Cond_Eq_Const { x: 2, nn: 8 }, PC_START + 2),
        (12, OpCode::Cond_Neq_Const { x: 2, nn: 12 }, PC_START + 2),
        (12, OpCode::Cond_Neq_Const { x: 2, nn: 8 }, PC_START + 4),
    ];
    for (reg_nn, opcode, pc) in cases {
        let mut vm = new_vm();
        let mut frame = VmFrame::new();
        frame.registers[2] = reg_nn;

        vm.execute(&mut frame, opcode).unwrap();

        assert_eq!(frame.PC, pc);
    }
}

#[test]
fn op_cond_reg() {
    let cases: Vec<(u8, u8, OpCode, u16)> = vec![
        (2, 2, OpCode::Cond_Eq_Reg { x: 0, y: 1 }, PC_START + 4),
        (2, 8, OpCode::Cond_Eq_Reg { x: 0, y: 1 }, PC_START + 2),
        (2, 2, OpCode::Cond_Neq_Reg { x: 0, y: 1 }, PC_START + 2),
        (2, 8, OpCode::Cond_Neq_Reg { x: 0, y: 1 }, PC_START + 4),
    ];
    for (val1, val2, opcode, pc) in cases {
        let mut vm = new_vm();
        let mut frame = VmFrame::new();
        frame.registers[0] = val1;
        frame.registers[1] = val2;

        vm.execute(&mut frame, opcode).unwrap();

        assert_eq!(frame.PC, pc);
    }
}

#[test]
fn op_const_set_reg() {
    let mut vm = new_vm();
    let mut frame = VmFrame::new();

    vm.execute(&mut frame, OpCode::Const_Set_Reg { x: 0, nn: 12 }).unwrap();

    assert_eq!(frame.registers[0], 12);
}

#[test]
fn op_const_add_reg() {
    let mut vm = new_vm();
    let mut frame = VmFrame::new();
    frame.registers[0] = 8;

    vm.execute(&mut frame, OpCode::Const_Add_Reg { x: 0, nn: 16 }).unwrap();

    assert_eq!(frame.registers[0], 8 + 16);
}

#[test]
fn op_assign() {
    let mut vm = new_vm();
    let mut frame = VmFrame::new();
    frame.registers[1] = 8;

    assert_eq!(frame.registers[0], 0);

    vm.execute(&mut frame, OpCode::Assign { x: 0, y: 1 }).unwrap();

    assert_eq!(frame.registers[0], 8);
}

#[test]
fn op_bitop_math() {
    let cases: Vec<(u8, u8, u8, Option<u8>, OpCode)> = vec![
        (0xA, 0xB, 0xA | 0xB, None, OpCode::BitOp_Or { x: 0, y: 1 }),
        (0xA, 0xB, 0xA & 0xB, None, OpCode::BitOp_And { x: 0, y: 1 }),
        (0xA, 0xB, 0xA ^ 0xB, None, OpCode::BitOp_Xor { x: 0, y: 1 }),
        (0xFF, 0xFF, 0xFF >> 1, Some(1), OpCode::BitOp_Shift_Right { x: 0, y: 1 }),
        (0xA, 0xA, 0xA >> 1, Some(0), OpCode::BitOp_Shift_Right { x: 0, y: 1 }),
        (0xFF, 0xFF, 0xFFu8 << 1, Some(1), OpCode::BitOp_Shift_Left { x: 0, y: 1 }),
        (0xB, 0xB, 0xB << 1, Some(0), OpCode::BitOp_Shift_Left { x: 0, y: 1 }),
        (2, 8, 2 + 8, Some(0), OpCode::Math_Add { x: 0, y: 1 }),
        (255, 8, 7, Some(1), OpCode::Math_Add { x: 0, y: 1 }),
        (8, 2, 8 - 2, Some(1), OpCode::Math_Minus { x: 0, y: 1 }),
        (2, 8, 250, Some(0), OpCode::Math_Minus { x: 0, y: 1 }),
        (2, 8, 8 - 2, Some(1), OpCode::Math_Minus_Reverse { x: 0, y: 1 }),
        (8, 2, 250, Some(0), OpCode::Math_Minus_Reverse { x: 0, y: 1 }),
    ];
    for (val1, val2, result, vf, opcode) in cases {
        let mut vm = new_vm();
        let mut frame = VmFrame::new();
        frame.registers[0] = val1;
        frame.registers[1] = val2;

        vm.execute(&mut frame, opcode).unwrap();

        assert_eq!(frame.registers[0], result);

        if let Some(v) = vf {
            assert_eq!(frame.registers[0xF], v);
        }
    }
}

#[test]
fn op_await_key() {
    let mut vm = new_vm();
    let mut frame = VmFrame::new();

    vm.execute(&mut frame, OpCode::KeyOp_Await { x: 0 }).unwrap();
    assert_eq!(frame.PC, PC_START);

    vm.set_input_keys(vec![7u8]);
    vm.execute(&mut frame, OpCode::KeyOp_Await { x: 0 }).unwrap();
    assert_eq!(frame.PC, PC_START + 2);
    assert_eq!(frame.registers[0], 7);
}

#[test]
fn op_key_press_skip() {
    let cases: Vec<(u8, bool, u16, OpCode)> = vec![
        (0, false, PC_START + 2, OpCode::KeyOp_Skip_Pressed { x: 0 }),
        (0, true, PC_START + 4, OpCode::KeyOp_Skip_Pressed { x: 0 }),
        (0, false, PC_START + 4, OpCode::KeyOp_Skip_Not_Pressed { x: 0 }),
        (0, true, PC_START + 2, OpCode::KeyOp_Skip_Not_Pressed { x: 0 }),
    ];
    for (key, is_pressed, pc, opcode) in cases {
        let mut vm = new_vm();
        let mut frame = VmFrame::new();
        frame.registers[0] = key;
        if is_pressed {
            vm.set_input_keys(vec![key]);
        }

        vm.execute(&mut frame, opcode).unwrap();

        assert_eq!(frame.PC, pc);
    }
}

#[test]
fn op_rand() {
    let mut vm = new_vm();
    let mut frame = VmFrame::new();

    vm.execute(&mut frame, OpCode::Rand { x: 0, nn: 0xAB }).unwrap();

    assert_ne!(frame.registers[0], 28);
    assert_eq!(frame.registers[0] & 0xAB, frame.registers[0]);
}

#[test]
fn op_bcd() {
    let cases: Vec<(u8, u8, u8, u8)> = vec![
        (255, 0b0010, 0b0101, 0b0101),
        (0, 0b0000, 0b0000, 0b0000),
        (1, 0b0000, 0b0000, 0b0001),
        (23, 0b0000, 0b0010, 0b0011),
        (100, 0b0001, 0b0000, 0b0000),
        (38, 0b0000, 0b0011, 0b1000),
    ];
    for (data, hundreds, tens, ones) in cases {
        let mut vm = new_vm();
        let mut frame = VmFrame::new();
        frame.registers[0] = data;

        vm.execute(&mut frame, OpCode::BCD { x: 0 }).unwrap();

        assert_eq!(frame.memory[(frame.I + 0) as usize], hundreds);
        assert_eq!(frame.memory[(frame.I + 1) as usize], tens);
        assert_eq!(frame.memory[(frame.I + 2) as usize], ones);
    }
}

#[test]
fn op_timer_delay_get() {
    let mut vm = new_vm();
    let mut frame = VmFrame::new();
    frame.delay_timer.set_scaled(8);

    vm.execute(&mut frame, OpCode::Timer_Delay_Get { x: 0 }).unwrap();

    assert_eq!(frame.registers[0], 8);
}

#[test]
fn op_timer_delay_set() {
    let mut vm = new_vm();
    let mut frame = VmFrame::new();
    frame.registers[0] = 8;

    vm.execute(&mut frame, OpCode::Timer_Delay_Set { x: 0 }).unwrap();

    assert_eq!(frame.delay_timer.get_scaled(), 8);
}

#[test]
fn op_sound_set() {
    let mut vm = new_vm();
    let mut frame = VmFrame::new();
    frame.registers[0] = 8;

    vm.execute(&mut frame, OpCode::Sound_Set { x: 0 }).unwrap();

    assert_eq!(frame.sound_timer.get_scaled(), 8);
    assert_eq!(vm.is_playing_sound(), true);
}

#[test]
fn op_mem_set_i() {
    let mut vm = new_vm();
    let mut frame = VmFrame::new();

    vm.execute(&mut frame, OpCode::MEM_Set_I { nnn: 123 }).unwrap();

    assert_eq!(frame.I, 123);
}

#[test]
fn op_mem_add_i() {
    let mut vm = new_vm();
    let mut frame = VmFrame::new();
    frame.I = 8;
    frame.registers[0] = 123;

    vm.execute(&mut frame, OpCode::MEM_Add_I { x: 0 }).unwrap();

    assert_eq!(frame.I, 8 + 123);
}

#[test]
fn op_mem_add_i_overflow_flag() {
    let mut vm = new_vm();
    let mut frame = VmFrame::new();
    frame.I = 0xFFFE;
    frame.registers[0] = 3;

    vm.execute(&mut frame, OpCode::MEM_Add_I { x: 0 }).unwrap();

    assert_eq!(frame.I, 1);
    assert_eq!(frame.registers[0xF], 1);
}

#[test]
fn op_mem_reg_dump() {
    for vx in [0usize, 1, 8, 12, 14, REGISTER_COUNT - 1] {
        let mut vm = new_vm();
        let mut frame = VmFrame::new();
        for n in 1..REGISTER_COUNT + 1 {
            frame.registers[n - 1] = n as u8;
        }

        vm.execute(&mut frame, OpCode::MEM_Reg_Dump { x: vx }).unwrap();

        assert_eq!(frame.I, vx as u16 + 1);

        frame.I = 0;

        for n in 0..vx + 1 {
            assert_eq!(frame.memory[frame.I as usize + n], frame.registers[n]);
        }
    }
}

#[test]
fn op_mem_reg_load() {
    for vx in [0usize, 1, 8, 12, 14, REGISTER_COUNT - 1] {
        let mut vm = new_vm();
        let mut frame = VmFrame::new();

        for n in 1..REGISTER_COUNT + 1 {
            frame.memory[frame.I as usize + n - 1] = n as u8;
        }

        vm.execute(&mut frame, OpCode::MEM_Reg_Load { x: vx }).unwrap();

        assert_eq!(frame.I, vx as u16 + 1);

        frame.I = 0;

        for n in 0..vx + 1 {
            assert_eq!(frame.registers[n], frame.memory[frame.I as usize + n]);
        }
    }
}

#[test]
fn op_mem_set_sprite_i() {
    for symbol in 0u8..16 {
        let mut vm = new_vm();
        let mut frame = VmFrame::new();
        frame.registers[0] = symbol;

        vm.execute(&mut frame, OpCode::MEM_Set_Sprite_I { x: 0 }).unwrap();

        assert_eq!(frame.I, symbol as u16 * FONT_SYMBOL_SIZE as u16);
    }
}

#[test]
fn op_draw_sets_pixels_and_collision_flag() {
    let mut vm = new_vm();
    let mut frame = VmFrame::new();
    frame.I = 0x300;
    frame.memory[0x300] = 0b1100_0000;
    frame.registers[0] = 0;
    frame.registers[1] = 0;

    vm.execute(&mut frame, OpCode::Disp { x: 0, y: 1, n: 1 }).unwrap();

    let snap = vm.get_display_snapshot();
    assert_eq!(snap.get_pixel(0, 0), 1);
    assert_eq!(snap.get_pixel(1, 0), 1);
    assert_eq!(snap.get_pixel(2, 0), 0);
    assert_eq!(frame.registers[0xF], 0);

    // Drawing the same sprite again erases it and reports the collision.
    vm.execute(&mut frame, OpCode::Disp { x: 0, y: 1, n: 1 }).unwrap();
    let snap = vm.get_display_snapshot();
    assert_eq!(snap.get_pixel(0, 0), 0);
    assert_eq!(snap.get_pixel(1, 0), 0);
    assert_eq!(frame.registers[0xF], 1);
}

#[test]
fn op_unknown_advances_pc() {
    let mut vm = new_vm();
    let mut frame = VmFrame::new();

    vm.execute(&mut frame, OpCode::Unknown).unwrap();
    assert_eq!(frame.PC, PC_START + 2);

    vm.execute(&mut frame, OpCode::Raw_Call { nnn: 0x123 }).unwrap();
    assert_eq!(frame.PC, PC_START + 4);
}
