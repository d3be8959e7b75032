use chip8_vm::constants::{PC_START, ROM_SIZE, TIMER_DURATION_NANO};
use chip8_vm::debugger::{DebugReport, DebuggerCommand};
use chip8_vm::errors::Errors;
use chip8_vm::vm::Vm;

#[test]
fn rom_empty_rejected() {
    let result = Vm::new(&Vec::new(), 60, false);
    assert!(matches!(result, Err(Errors::RomEmpty)));
}

#[test]
fn rom_too_big_rejected() {
    let rom: Vec<u8> = vec![0u8; ROM_SIZE + 1];
    let result = Vm::new(&rom, 60, false);
    match result {
        Err(Errors::RomTooBig { size, max }) => {
            assert_eq!(size, ROM_SIZE + 1);
            assert_eq!(max, ROM_SIZE);
        },
        _ => panic!("oversized program was not rejected"),
    }
}

#[test]
fn rom_loaded_at_base_with_font() {
    let vm = Vm::new(&vec![0xABu8, 0xCD], 60, false).unwrap();
    let frame = vm.get_current_frame();

    assert_eq!(frame.PC, PC_START);
    assert_eq!(frame.I, 0);
    assert_eq!(frame.memory[0], 0xF0);
    assert_eq!(frame.memory[512], 0xAB);
    assert_eq!(frame.memory[513], 0xCD);
    assert_eq!(frame.memory[514], 0);
    assert_eq!(frame.stack.len(), 0);
    assert_eq!(vm.frames.len(), 1);
    assert_eq!(vm.frame_pointer, 0);
}

#[test]
fn tick_accumulates_before_firing() {
    let mut vm = Vm::new(&vec![0u8, 0], 60, false).unwrap();

    assert!(vm.can_tick(5));
    vm.tick(5).unwrap();
    assert_eq!(vm.tick_timer, 5);

    // Still below one tick duration: another accumulation, no cycle.
    assert!(vm.can_tick(5));
    vm.tick(5).unwrap();
    assert_eq!(vm.tick_timer, 10);
    assert_eq!(vm.get_current_frame().PC, PC_START);
}

#[test]
fn tick_executes_once_threshold_crossed() {
    let mut vm = Vm::new(&vec![0u8, 0], 60, false).unwrap();

    vm.tick(TIMER_DURATION_NANO + 1).unwrap();
    assert!(vm.can_tick(0));
    vm.tick(0).unwrap();

    assert_eq!(vm.tick_timer, 0);
    assert_eq!(vm.get_current_frame().PC, PC_START + 2);
    // Debugging disabled: history never grows past one frame.
    assert_eq!(vm.frames.len(), 1);
}

fn run_one_cycle(vm: &mut Vm) {
    assert!(vm.can_tick(1));
    vm.tick(1).unwrap();
    assert!(vm.can_tick(0));
    vm.tick(0).unwrap();
}

#[test]
fn history_grows_one_frame_per_cycle() {
    let n: usize = 10;
    let mut vm = Vm::new(&vec![0u8, 0], 0, true).unwrap();

    for _ in 0..n {
        run_one_cycle(&mut vm);
    }

    assert_eq!(vm.frame_pointer, n);
    assert_eq!(vm.frames.len(), n + 1);
    assert_eq!(vm.get_current_frame().PC, PC_START + 2 * n as u16);
}

#[test]
fn previous_at_history_start_is_noop() {
    let mut vm = Vm::new(&vec![0u8, 0], 0, true).unwrap();
    vm.toggle_debugger_break();
    vm.send_debugger_command(DebuggerCommand::Previous);

    run_broken_gate(&mut vm);

    assert_eq!(vm.frame_pointer, 0);
    assert_eq!(vm.frames.len(), 1);
    assert_eq!(vm.get_current_frame().PC, PC_START);
}

fn run_broken_gate(vm: &mut Vm) {
    assert!(vm.can_tick(1));
    vm.tick(1).unwrap();
    assert!(vm.can_tick(0));
    vm.tick(0).unwrap();
}

#[test]
fn next_at_history_end_resumes_live_execution() {
    let mut vm = Vm::new(&vec![0u8, 0], 0, true).unwrap();
    vm.toggle_debugger_break();
    vm.send_debugger_command(DebuggerCommand::Next);

    run_broken_gate(&mut vm);

    // The Next command found no recorded future frame, so the cycle ran
    // live: one new frame, cursor advanced.
    assert_eq!(vm.frame_pointer, 1);
    assert_eq!(vm.frames.len(), 2);
    assert_eq!(vm.get_current_frame().PC, PC_START + 2);
}

#[test]
fn step_back_and_forward_through_history() {
    let mut vm = Vm::new(&vec![0u8, 0], 0, true).unwrap();
    run_one_cycle(&mut vm);
    run_one_cycle(&mut vm);
    assert_eq!(vm.frame_pointer, 2);

    vm.toggle_debugger_break();
    vm.send_debugger_command(DebuggerCommand::Previous);
    run_broken_gate(&mut vm);
    assert_eq!(vm.frame_pointer, 1);
    assert_eq!(vm.frames.len(), 3);

    vm.send_debugger_command(DebuggerCommand::Next);
    run_broken_gate(&mut vm);
    assert_eq!(vm.frame_pointer, 2);
    assert_eq!(vm.frames.len(), 3);
}

#[test]
fn print_registers_reports_cursor_frame() {
    let mut vm = Vm::new(&vec![0u8, 0], 0, true).unwrap();
    vm.toggle_debugger_break();
    vm.send_debugger_command(DebuggerCommand::PrintRegisters);

    run_broken_gate(&mut vm);

    let reports = vm.take_debug_reports();
    assert_eq!(reports.len(), 1);
    match &reports[0] {
        DebugReport::Registers { registers, pc, i } => {
            assert_eq!(registers.len(), 16);
            assert_eq!(*pc, PC_START);
            assert_eq!(*i, 0);
        },
        _ => panic!("expected a register dump"),
    }
    assert!(vm.take_debug_reports().is_empty());
}

#[test]
fn sound_timer_countdown_clears_audio() {
    let mut vm = Vm::new(&vec![0u8, 0], 60, false).unwrap();
    vm.frames[0].sound_timer.set_scaled(1);
    vm.audio.playing = true;

    vm.tick(2 * TIMER_DURATION_NANO).unwrap();
    assert!(vm.is_playing_sound());
    assert!(vm.can_tick(0));
    vm.tick(0).unwrap();

    assert_eq!(vm.get_current_frame().sound_timer.get(), 0);
    assert!(!vm.is_playing_sound());
}
