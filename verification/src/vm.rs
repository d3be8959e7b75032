//! The machine itself: the frame model (memory, registers, stack, program
//! counter, index register, timers, framebuffer copy), the execution
//! engine, the fixed-timestep tick scheduler, and the time-travel
//! debugger's history of frames.

use vstd::prelude::*;

use crate::audio::Audio;
use crate::constants::{
    FLAG_REGISTER, FONT_SYMBOL_SIZE, FONT_TABLE_SIZE, MEMORY_SIZE, NANOS_PER_SECOND, PC_INCREMENT,
    PC_START, REGISTER_COUNT, ROM_SIZE, SCREEN_SIZE, TIMER_DURATION_NANO, VM_ORIGINAL_HZ,
    VM_RESERVED_BEGIN,
};
use crate::debugger::{DebugReport, Debugger, DebuggerCommand, ReportView, report_views};
use crate::display::{
    blank_screen, clone_bytes, spec_collision, spec_draw, Display, DisplayState, Snapshot,
    VmDisplay,
};
use crate::errors::Errors;
use crate::input::{Input, KeypadState};
use crate::opcodes::{decode, spec_decode, OpCode};
use crate::timer::{scaled_view, Timer};

verus! {

/// Relies on rand::random: draws one value from the thread-local
/// generator; nothing is promised of the result.
pub assume_specification<T>[ rand::random::<T> ]() -> (r: T)
    where
        rand::distributions::Standard: rand::distributions::Distribution<T>,
;

/// One uniformly random byte.
fn get_random() -> u8 {
    rand::random::<u8>()
}

/// A saved return address on the call stack.
#[derive(Debug, Clone, Copy, PartialEq, Eq, Structural)]
pub struct StackFrame {
    pub return_address: u16,
}

/// A complete snapshot of machine state at one point in execution: the
/// unit the debugger's history stores, cloned on every executed cycle.
#[allow(non_snake_case)]
pub struct VmFrame {
    pub registers: Vec<u8>,
    pub stack: Vec<StackFrame>,
    pub memory: Vec<u8>,
    pub PC: u16,
    pub I: u16,

    pub delay_timer: Timer,
    pub sound_timer: Timer,

    pub screen: Vec<u8>,
}

/// The mathematical value of a machine frame.
#[verifier::ext_equal]
pub ghost struct FrameView {
    pub regs: Seq<u8>,
    pub stack: Seq<u16>,
    pub mem: Seq<u8>,
    pub pc: u16,
    pub i: u16,
    pub delay: u128,
    pub sound: u128,
    pub screen: Seq<u8>,
}

/// The return addresses of a call stack, innermost last.
pub open spec fn stack_views(stack: Seq<StackFrame>) -> Seq<u16> {
    stack.map_values(|s: StackFrame| s.return_address)
}

impl View for VmFrame {
    type V = FrameView;

    open spec fn view(&self) -> FrameView {
        FrameView {
            regs: self.registers@,
            stack: stack_views(self.stack@),
            mem: self.memory@,
            pc: self.PC,
            i: self.I,
            delay: self.delay_timer.raw(),
            sound: self.sound_timer.raw(),
            screen: self.screen@,
        }
    }
}

/// Well-formedness of a frame: full-size register file, memory and screen
/// copy, and saved return addresses that a return can still advance past.
pub open spec fn frame_wf(f: FrameView) -> bool {
    &&& f.regs.len() == REGISTER_COUNT
    &&& f.mem.len() == MEMORY_SIZE
    &&& f.screen.len() == SCREEN_SIZE
    &&& forall|k: int|
        0 <= k < f.stack.len() ==> #[trigger] f.stack[k] + PC_INCREMENT <= u16::MAX
}

/// The sixteen built-in font glyphs, five bytes each, one glyph per
/// hexadecimal digit.
pub open spec fn font_seq() -> Seq<u8> {
    seq![
        0xF0u8, 0x90u8, 0x90u8, 0x90u8, 0xF0u8,
        0x20u8, 0x60u8, 0x20u8, 0x20u8, 0x70u8,
        0xF0u8, 0x10u8, 0xF0u8, 0x80u8, 0xF0u8,
        0xF0u8, 0x10u8, 0xF0u8, 0x10u8, 0xF0u8,
        0x90u8, 0x90u8, 0xF0u8, 0x10u8, 0x10u8,
        0xF0u8, 0x80u8, 0xF0u8, 0x10u8, 0xF0u8,
        0xF0u8, 0x80u8, 0xF0u8, 0x90u8, 0xF0u8,
        0xF0u8, 0x10u8, 0x20u8, 0x40u8, 0x40u8,
        0xF0u8, 0x90u8, 0xF0u8, 0x90u8, 0xF0u8,
        0xF0u8, 0x90u8, 0xF0u8, 0x10u8, 0xF0u8,
        0xF0u8, 0x90u8, 0xF0u8, 0x90u8, 0x90u8,
        0xE0u8, 0x90u8, 0xE0u8, 0x90u8, 0xE0u8,
        0xF0u8, 0x80u8, 0x80u8, 0x80u8, 0xF0u8,
        0xE0u8, 0x90u8, 0x90u8, 0x90u8, 0xE0u8,
        0xF0u8, 0x80u8, 0xF0u8, 0x80u8, 0xF0u8,
        0xF0u8, 0x80u8, 0xF0u8, 0x80u8, 0x80u8,
    ]
}

/// A zero-filled byte vector of the given length.
fn zero_bytes(n: usize) -> (v: Vec<u8>)
    ensures
        v@.len() == n,
        forall|j: int| 0 <= j < n ==> v@[j] == 0u8,
{
    let mut v: Vec<u8> = Vec::new();
    let mut i: usize = 0;
    while i < n
        invariant
            i <= n,
            v@.len() == i,
            forall|j: int| 0 <= j < i ==> v@[j] == 0u8,
        decreases n - i,
    {
        v.push(0u8);
        i = i + 1;
    }
    v
}

/// The font table as bytes.
fn font_table() -> (v: Vec<u8>)
    ensures
        v@ == font_seq(),
{
    let v: Vec<u8> = vec![
        0xF0u8, 0x90u8, 0x90u8, 0x90u8, 0xF0u8,
        0x20u8, 0x60u8, 0x20u8, 0x20u8, 0x70u8,
        0xF0u8, 0x10u8, 0xF0u8, 0x80u8, 0xF0u8,
        0xF0u8, 0x10u8, 0xF0u8, 0x10u8, 0xF0u8,
        0x90u8, 0x90u8, 0xF0u8, 0x10u8, 0x10u8,
        0xF0u8, 0x80u8, 0xF0u8, 0x10u8, 0xF0u8,
        0xF0u8, 0x80u8, 0xF0u8, 0x90u8, 0xF0u8,
        0xF0u8, 0x10u8, 0x20u8, 0x40u8, 0x40u8,
        0xF0u8, 0x90u8, 0xF0u8, 0x90u8, 0xF0u8,
        0xF0u8, 0x90u8, 0xF0u8, 0x10u8, 0xF0u8,
        0xF0u8, 0x90u8, 0xF0u8, 0x90u8, 0x90u8,
        0xE0u8, 0x90u8, 0xE0u8, 0x90u8, 0xE0u8,
        0xF0u8, 0x80u8, 0x80u8, 0x80u8, 0xF0u8,
        0xE0u8, 0x90u8, 0x90u8, 0x90u8, 0xE0u8,
        0xF0u8, 0x80u8, 0xF0u8, 0x80u8, 0xF0u8,
        0xF0u8, 0x80u8, 0xF0u8, 0x80u8, 0x80u8,
    ];
    proof {
        assert(v@ =~= font_seq());
    }
    v
}

/// All-zero register file.
pub open spec fn zero_regs() -> Seq<u8> {
    Seq::new(REGISTER_COUNT as nat, |k: int| 0u8)
}

/// All-zero memory.
pub open spec fn zero_memory() -> Seq<u8> {
    Seq::new(MEMORY_SIZE as nat, |j: int| 0u8)
}

/// The state of a frame at machine start, before any program is loaded.
pub open spec fn initial_frame_view() -> FrameView {
    FrameView {
        regs: zero_regs(),
        stack: Seq::empty(),
        mem: zero_memory(),
        pc: PC_START,
        i: 0,
        delay: 0,
        sound: 0,
        screen: blank_screen(),
    }
}

impl VmFrame {
    /// Well-formedness of this frame.
    pub open spec fn wf(&self) -> bool {
        frame_wf(self@)
    }

    /// A blank frame: zeroed state, program counter at the load address.
    pub fn new() -> (f: VmFrame)
        ensures
            f.wf(),
            f@ == initial_frame_view(),
    {
        let f = VmFrame {
            registers: zero_bytes(REGISTER_COUNT),
            stack: Vec::new(),
            memory: zero_bytes(MEMORY_SIZE),
            PC: PC_START,
            I: 0,
            delay_timer: Timer::new(),
            sound_timer: Timer::new(),
            screen: zero_bytes(SCREEN_SIZE),
        };
        proof {
            assert(f.registers@ =~= zero_regs());
            assert(f.memory@ =~= zero_memory());
            assert(f.screen@ =~= blank_screen());
            assert(stack_views(f.stack@) =~= Seq::<u16>::empty());
            assert(f@ =~= initial_frame_view());
        }
        f
    }

    /// An exact copy of this frame.
    pub fn duplicate(&self) -> (r: VmFrame)
        ensures
            r@ == self@,
    {
        let mut stack: Vec<StackFrame> = Vec::new();
        let mut i: usize = 0;
        while i < self.stack.len()
            invariant
                i <= self.stack@.len(),
                stack@ == self.stack@.subrange(0, i as int),
            decreases self.stack.len() - i,
        {
            stack.push(self.stack[i]);
            assert(stack@ =~= self.stack@.subrange(0, i + 1 as int));
            i = i + 1;
        }
        assert(stack@ =~= self.stack@);
        let r = VmFrame {
            registers: clone_bytes(&self.registers),
            stack,
            memory: clone_bytes(&self.memory),
            PC: self.PC,
            I: self.I,
            delay_timer: self.delay_timer,
            sound_timer: self.sound_timer,
            screen: clone_bytes(&self.screen),
        };
        proof {
            assert(r@ =~= self@);
        }
        r
    }
}

/// The 16-bit big-endian instruction word at the frame's program counter.
pub open spec fn spec_fetch(f: FrameView) -> u16 {
    ((f.mem[f.pc as int] as u16) << 8) | (f.mem[f.pc as int + 1] as u16)
}

/// Fetch the instruction word at the program counter.
pub fn fetch(frame: &VmFrame) -> (r: u16)
    requires
        frame.wf(),
        frame.PC as int + 2 <= MEMORY_SIZE,
    ensures
        r == spec_fetch(frame@),
{
    let hi = frame.memory[frame.PC as usize];
    let lo = frame.memory[frame.PC as usize + 1];
    ((hi as u16) << 8) | (lo as u16)
}

// ---------------------------------------------------------------------------
// Instruction semantics, as functions of the mathematical frame value.
// ---------------------------------------------------------------------------

/// A frame after the default program-counter advance of one instruction.
pub open spec fn advanced(f: FrameView) -> FrameView {
    FrameView { pc: (f.pc + PC_INCREMENT) as u16, ..f }
}

/// A frame after a conditional skip: two instructions ahead.
pub open spec fn skipped(f: FrameView) -> FrameView {
    FrameView { pc: (f.pc + 2 * PC_INCREMENT) as u16, ..f }
}

/// A frame with its register file replaced.
pub open spec fn with_regs(f: FrameView, regs: Seq<u8>) -> FrameView {
    FrameView { regs, ..f }
}

/// Modulo-256 sum.
pub open spec fn wrap_add(a: u8, b: u8) -> u8 {
    ((a + b) % 256) as u8
}

/// Carry-out of a modulo-256 sum: 1 exactly when the true sum overflows.
pub open spec fn carry_flag(a: u8, b: u8) -> u8 {
    if a + b > 255 {
        1u8
    } else {
        0u8
    }
}

/// Modulo-256 difference.
pub open spec fn wrap_sub(a: u8, b: u8) -> u8 {
    ((a - b + 256) % 256) as u8
}

/// Inverted borrow: 1 exactly when no borrow occurred.
pub open spec fn no_borrow_flag(a: u8, b: u8) -> u8 {
    if a >= b {
        1u8
    } else {
        0u8
    }
}

/// Registers after a right shift: the ejected bit 0 goes to the flag
/// register first, then the shifted source is stored.
pub open spec fn shift_right_regs(regs: Seq<u8>, reg: int, store: int) -> Seq<u8> {
    let flagged = regs.update(FLAG_REGISTER as int, regs[reg] & 1u8);
    flagged.update(store, flagged[reg] >> 1u8)
}

/// Registers after a left shift: the ejected bit 7 goes to the flag
/// register first, then the shifted source is stored.
pub open spec fn shift_left_regs(regs: Seq<u8>, reg: int, store: int) -> Seq<u8> {
    let flagged = regs.update(FLAG_REGISTER as int, regs[reg] >> 7u8);
    flagged.update(store, flagged[reg] << 1u8)
}

/// Memory after the binary-coded-decimal write of `v` at `i0`:
/// hundreds, tens, ones.
pub open spec fn bcd_mem(mem: Seq<u8>, i0: int, v: u8) -> Seq<u8> {
    mem.update(i0, v / 100).update(i0 + 1, (v / 10) % 10).update(i0 + 2, (v % 100) % 10)
}

/// Memory after `count` registers are dumped starting at `i0`.
pub open spec fn dumped_mem(mem: Seq<u8>, regs: Seq<u8>, i0: int, count: int) -> Seq<u8> {
    Seq::new(
        mem.len(),
        |j: int|
            if i0 <= j < i0 + count {
                regs[j - i0]
            } else {
                mem[j]
            },
    )
}

/// Registers after `count` of them are loaded from memory at `i0`.
pub open spec fn loaded_regs(regs: Seq<u8>, mem: Seq<u8>, i0: int, count: int) -> Seq<u8> {
    Seq::new(
        regs.len(),
        |k: int|
            if 0 <= k < count {
                mem[i0 + k]
            } else {
                regs[k]
            },
    )
}

/// The raw nanosecond value of a scaled timer write.
pub open spec fn scaled_nanos(v: u8) -> u128 {
    (v as u128 * TIMER_DURATION_NANO) as u128
}

/// A frame after a random draw of `b`, masked and stored.
pub open spec fn rand_masked(f: FrameView, x: int, b: u8, nn: u8) -> FrameView {
    with_regs(f, f.regs.update(x, b & nn))
}

/// What the engine demands of a frame before executing one decoded
/// instruction: in-range register indices, in-range memory windows, and a
/// program counter that both possible advances keep within `u16`.
pub open spec fn execute_preconditions(f: FrameView, code: OpCode) -> bool {
    &&& f.pc + 2 * PC_INCREMENT <= u16::MAX
    &&& match code {
        OpCode::Unknown => true,
        OpCode::Raw_Call { nnn } => true,
        OpCode::Disp_Clear => true,
        OpCode::Disp { x, y, n } => x < REGISTER_COUNT && y < REGISTER_COUNT && f.i + 8 * n
            <= MEMORY_SIZE,
        OpCode::Flow_Return => true,
        OpCode::Flow_Jump { nnn } => true,
        OpCode::Flow_Call { nnn } => true,
        OpCode::Flow_Jump_Offset { nnn } => nnn <= 0xFFF,
        OpCode::Cond_Eq_Const { x, nn } => x < REGISTER_COUNT,
        OpCode::Cond_Neq_Const { x, nn } => x < REGISTER_COUNT,
        OpCode::Cond_Eq_Reg { x, y } => x < REGISTER_COUNT && y < REGISTER_COUNT,
        OpCode::Cond_Neq_Reg { x, y } => x < REGISTER_COUNT && y < REGISTER_COUNT,
        OpCode::Const_Set_Reg { x, nn } => x < REGISTER_COUNT,
        OpCode::Const_Add_Reg { x, nn } => x < REGISTER_COUNT,
        OpCode::Assign { x, y } => x < REGISTER_COUNT && y < REGISTER_COUNT,
        OpCode::BitOp_Or { x, y } => x < REGISTER_COUNT && y < REGISTER_COUNT,
        OpCode::BitOp_And { x, y } => x < REGISTER_COUNT && y < REGISTER_COUNT,
        OpCode::BitOp_Xor { x, y } => x < REGISTER_COUNT && y < REGISTER_COUNT,
        OpCode::BitOp_Shift_Right { x, y } => x < REGISTER_COUNT && y < REGISTER_COUNT,
        OpCode::BitOp_Shift_Left { x, y } => x < REGISTER_COUNT && y < REGISTER_COUNT,
        OpCode::Math_Add { x, y } => x < REGISTER_COUNT && y < REGISTER_COUNT,
        OpCode::Math_Minus { x, y } => x < REGISTER_COUNT && y < REGISTER_COUNT,
        OpCode::Math_Minus_Reverse { x, y } => x < REGISTER_COUNT && y < REGISTER_COUNT,
        OpCode::MEM_Set_I { nnn } => true,
        OpCode::MEM_Add_I { x } => x < REGISTER_COUNT,
        OpCode::MEM_Set_Sprite_I { x } => x < REGISTER_COUNT,
        OpCode::MEM_Reg_Dump { x } => x < REGISTER_COUNT && f.i + x + 1 <= MEMORY_SIZE,
        OpCode::MEM_Reg_Load { x } => x < REGISTER_COUNT && f.i + x + 1 <= MEMORY_SIZE,
        OpCode::Rand { x, nn } => x < REGISTER_COUNT,
        OpCode::BCD { x } => x < REGISTER_COUNT && f.i + 3 <= MEMORY_SIZE,
        OpCode::Timer_Delay_Get { x } => x < REGISTER_COUNT,
        OpCode::Timer_Delay_Set { x } => x < REGISTER_COUNT,
        OpCode::Sound_Set { x } => x < REGISTER_COUNT,
        OpCode::KeyOp_Skip_Pressed { x } => x < REGISTER_COUNT,
        OpCode::KeyOp_Skip_Not_Pressed { x } => x < REGISTER_COUNT,
        OpCode::KeyOp_Await { x } => x < REGISTER_COUNT,
    }
}

/// How one instruction transforms the frame. `screen0` is the framebuffer
/// before the instruction (the sprite collision flag depends on it);
/// `keys` are the held key codes.
pub open spec fn frame_effect(
    pre: FrameView,
    post: FrameView,
    code: OpCode,
    screen0: Seq<u8>,
    keys: Seq<u8>,
) -> bool {
    match code {
        OpCode::Unknown => post == advanced(pre),
        OpCode::Raw_Call { nnn } => post == advanced(pre),
        OpCode::Disp_Clear => post == advanced(pre),
        OpCode::Disp { x, y, n } => {
            let sprite = pre.mem.subrange(pre.i as int, pre.i as int + 8 * n);
            let hit = spec_collision(
                screen0,
                pre.regs[x as int] as int,
                pre.regs[y as int] as int,
                n as int,
                sprite,
            );
            post == advanced(
                with_regs(
                    pre,
                    pre.regs.update(
                        FLAG_REGISTER as int,
                        if hit {
                            1u8
                        } else {
                            0u8
                        },
                    ),
                ),
            )
        },
        OpCode::Flow_Return => if pre.stack.len() > 0 {
            post == advanced(
                FrameView { stack: pre.stack.drop_last(), pc: pre.stack.last(), ..pre },
            )
        } else {
            post == advanced(pre)
        },
        OpCode::Flow_Jump { nnn } => post == FrameView { pc: nnn, ..pre },
        OpCode::Flow_Call { nnn } => post == FrameView {
            stack: pre.stack.push(pre.pc),
            pc: nnn,
            ..pre
        },
        OpCode::Flow_Jump_Offset { nnn } => post == FrameView {
            pc: (pre.regs[0] + nnn) as u16,
            ..pre
        },
        OpCode::Cond_Eq_Const { x, nn } => post == if pre.regs[x as int] == nn {
            skipped(pre)
        } else {
            advanced(pre)
        },
        OpCode::Cond_Neq_Const { x, nn } => post == if pre.regs[x as int] != nn {
            skipped(pre)
        } else {
            advanced(pre)
        },
        OpCode::Cond_Eq_Reg { x, y } => post == if pre.regs[x as int] == pre.regs[y as int] {
            skipped(pre)
        } else {
            advanced(pre)
        },
        OpCode::Cond_Neq_Reg { x, y } => post == if pre.regs[x as int] != pre.regs[y as int] {
            skipped(pre)
        } else {
            advanced(pre)
        },
        OpCode::Const_Set_Reg { x, nn } => post == advanced(
            with_regs(pre, pre.regs.update(x as int, nn)),
        ),
        OpCode::Const_Add_Reg { x, nn } => post == advanced(
            with_regs(pre, pre.regs.update(x as int, wrap_add(pre.regs[x as int], nn))),
        ),
        OpCode::Assign { x, y } => post == advanced(
            with_regs(pre, pre.regs.update(x as int, pre.regs[y as int])),
        ),
        OpCode::BitOp_Or { x, y } => post == advanced(
            with_regs(pre, pre.regs.update(x as int, pre.regs[x as int] | pre.regs[y as int])),
        ),
        OpCode::BitOp_And { x, y } => post == advanced(
            with_regs(pre, pre.regs.update(x as int, pre.regs[x as int] & pre.regs[y as int])),
        ),
        OpCode::BitOp_Xor { x, y } => post == advanced(
            with_regs(pre, pre.regs.update(x as int, pre.regs[x as int] ^ pre.regs[y as int])),
        ),
        OpCode::BitOp_Shift_Right { x, y } => post == advanced(
            with_regs(pre, shift_right_regs(pre.regs, x as int, x as int)),
        ),
        OpCode::BitOp_Shift_Left { x, y } => post == advanced(
            with_regs(pre, shift_left_regs(pre.regs, x as int, x as int)),
        ),
        OpCode::Math_Add { x, y } => {
            let a = pre.regs[x as int];
            let b = pre.regs[y as int];
            post == advanced(
                with_regs(
                    pre,
                    pre.regs.update(x as int, wrap_add(a, b)).update(
                        FLAG_REGISTER as int,
                        carry_flag(a, b),
                    ),
                ),
            )
        },
        OpCode::Math_Minus { x, y } => {
            let a = pre.regs[x as int];
            let b = pre.regs[y as int];
            post == advanced(
                with_regs(
                    pre,
                    pre.regs.update(x as int, wrap_sub(a, b)).update(
                        FLAG_REGISTER as int,
                        no_borrow_flag(a, b),
                    ),
                ),
            )
        },
        OpCode::Math_Minus_Reverse { x, y } => {
            let a = pre.regs[y as int];
            let b = pre.regs[x as int];
            post == advanced(
                with_regs(
                    pre,
                    pre.regs.update(x as int, wrap_sub(a, b)).update(
                        FLAG_REGISTER as int,
                        no_borrow_flag(a, b),
                    ),
                ),
            )
        },
        OpCode::MEM_Set_I { nnn } => post == advanced(FrameView { i: nnn, ..pre }),
        OpCode::MEM_Add_I { x } => {
            let sum = pre.i + pre.regs[x as int];
            post == advanced(
                FrameView {
                    i: (sum % 0x10000) as u16,
                    regs: pre.regs.update(
                        FLAG_REGISTER as int,
                        if sum > 0xFFFF {
                            1u8
                        } else {
                            0u8
                        },
                    ),
                    ..pre
                },
            )
        },
        OpCode::MEM_Set_Sprite_I { x } => post == advanced(
            FrameView { i: (pre.regs[x as int] * FONT_SYMBOL_SIZE) as u16, ..pre },
        ),
        OpCode::MEM_Reg_Dump { x } => post == advanced(
            FrameView {
                mem: dumped_mem(pre.mem, pre.regs, pre.i as int, x + 1),
                i: (pre.i + x + 1) as u16,
                ..pre
            },
        ),
        OpCode::MEM_Reg_Load { x } => post == advanced(
            FrameView {
                regs: loaded_regs(pre.regs, pre.mem, pre.i as int, x + 1),
                i: (pre.i + x + 1) as u16,
                ..pre
            },
        ),
        OpCode::Rand { x, nn } => exists|b: u8|
            post == advanced(#[trigger] rand_masked(pre, x as int, b, nn)),
        OpCode::BCD { x } => post == advanced(
            FrameView { mem: bcd_mem(pre.mem, pre.i as int, pre.regs[x as int]), ..pre },
        ),
        OpCode::Timer_Delay_Get { x } => post == advanced(
            with_regs(pre, pre.regs.update(x as int, scaled_view(pre.delay))),
        ),
        OpCode::Timer_Delay_Set { x } => post == advanced(
            FrameView { delay: scaled_nanos(pre.regs[x as int]), ..pre },
        ),
        OpCode::Sound_Set { x } => post == advanced(
            FrameView { sound: scaled_nanos(pre.regs[x as int]), ..pre },
        ),
        OpCode::KeyOp_Skip_Pressed { x } => post == if keys.contains(pre.regs[x as int]) {
            skipped(pre)
        } else {
            advanced(pre)
        },
        OpCode::KeyOp_Skip_Not_Pressed { x } => post == if !keys.contains(pre.regs[x as int]) {
            skipped(pre)
        } else {
            advanced(pre)
        },
        OpCode::KeyOp_Await { x } => if keys.len() == 0 {
            post == pre
        } else {
            post == advanced(with_regs(pre, pre.regs.update(x as int, keys[0])))
        },
    }
}

/// How one instruction changes the framebuffer: only the screen-clear and
/// sprite-draw instructions touch it.
pub open spec fn screen_effect(
    pre: FrameView,
    code: OpCode,
    screen0: Seq<u8>,
    screen1: Seq<u8>,
) -> bool {
    match code {
        OpCode::Disp_Clear => screen1 == blank_screen(),
        OpCode::Disp { x, y, n } => screen1 == spec_draw(
            screen0,
            pre.regs[x as int] as int,
            pre.regs[y as int] as int,
            n as int,
            pre.mem.subrange(pre.i as int, pre.i as int + 8 * n),
        ),
        _ => screen1 == screen0,
    }
}

/// How one instruction changes the tone-request flag: only setting the
/// sound timer raises it; nothing an instruction does clears it.
pub open spec fn audio_effect(code: OpCode, audio0: bool, audio1: bool) -> bool {
    match code {
        OpCode::Sound_Set { x } => audio1 == true,
        _ => audio1 == audio0,
    }
}

/// Which instructions fail, and how: only a return with an empty call
/// stack, which is execution-fatal.
pub open spec fn result_effect(pre: FrameView, code: OpCode, r: Result<(), Errors>) -> bool {
    match code {
        OpCode::Flow_Return => if pre.stack.len() > 0 {
            r == Result::<(), Errors>::Ok(())
        } else {
            r == Result::<(), Errors>::Err(Errors::StackEmpty)
        },
        _ => r == Result::<(), Errors>::Ok(()),
    }
}

/// The complete effect of executing one decoded instruction.
pub open spec fn execute_effect(
    pre: FrameView,
    post: FrameView,
    code: OpCode,
    screen0: Seq<u8>,
    screen1: Seq<u8>,
    audio0: bool,
    audio1: bool,
    keys: Seq<u8>,
    r: Result<(), Errors>,
) -> bool {
    &&& frame_effect(pre, post, code, screen0, keys)
    &&& screen_effect(pre, code, screen0, screen1)
    &&& audio_effect(code, audio0, audio1)
    &&& result_effect(pre, code, r)
}

// ---------------------------------------------------------------------------
// The execution engine.
// ---------------------------------------------------------------------------

/// Advance the program counter past the current instruction.
fn increment_pc(frame: &mut VmFrame)
    requires
        old(frame)@.pc + PC_INCREMENT <= u16::MAX,
    ensures
        final(frame)@ == advanced(old(frame)@),
{
    frame.PC = frame.PC + PC_INCREMENT;
}

/// Write the flag register.
fn set_vf_flag(frame: &mut VmFrame, value: u8)
    requires
        old(frame)@.regs.len() == REGISTER_COUNT,
    ensures
        final(frame)@ == with_regs(
            old(frame)@,
            old(frame)@.regs.update(FLAG_REGISTER as int, value),
        ),
{
    frame.registers[FLAG_REGISTER] = value;
}

/// Shift a register right by one; the ejected bit 0 lands in the flag
/// register before the shifted value is stored.
fn op_right_shift(frame: &mut VmFrame, reg: usize, store_reg: usize)
    requires
        old(frame)@.regs.len() == REGISTER_COUNT,
        reg < REGISTER_COUNT,
        store_reg < REGISTER_COUNT,
    ensures
        final(frame)@ == with_regs(
            old(frame)@,
            shift_right_regs(old(frame)@.regs, reg as int, store_reg as int),
        ),
{
    let flag = frame.registers[reg] & 1u8;
    set_vf_flag(frame, flag);
    let shifted = frame.registers[reg] >> 1u8;
    frame.registers[store_reg] = shifted;
}

/// Shift a register left by one; the ejected bit 7 lands in the flag
/// register before the shifted value is stored.
fn op_left_shift(frame: &mut VmFrame, reg: usize, store_reg: usize)
    requires
        old(frame)@.regs.len() == REGISTER_COUNT,
        reg < REGISTER_COUNT,
        store_reg < REGISTER_COUNT,
    ensures
        final(frame)@ == with_regs(
            old(frame)@,
            shift_left_regs(old(frame)@.regs, reg as int, store_reg as int),
        ),
{
    let flag = frame.registers[reg] >> 7u8;
    set_vf_flag(frame, flag);
    let shifted = frame.registers[reg] << 1u8;
    frame.registers[store_reg] = shifted;
}

/// Wrapping add of two registers; the flag register reports carry-out.
fn op_math_add(frame: &mut VmFrame, reg1: usize, reg2: usize, store_reg: usize)
    requires
        old(frame)@.regs.len() == REGISTER_COUNT,
        reg1 < REGISTER_COUNT,
        reg2 < REGISTER_COUNT,
        store_reg < REGISTER_COUNT,
    ensures
        final(frame)@ == with_regs(
            old(frame)@,
            old(frame)@.regs.update(
                store_reg as int,
                wrap_add(old(frame)@.regs[reg1 as int], old(frame)@.regs[reg2 as int]),
            ).update(
                FLAG_REGISTER as int,
                carry_flag(old(frame)@.regs[reg1 as int], old(frame)@.regs[reg2 as int]),
            ),
        ),
{
    let a = frame.registers[reg1];
    let b = frame.registers[reg2];
    let sum: u16 = a as u16 + b as u16;
    frame.registers[store_reg] = (sum % 256) as u8;
    let flag: u8 = if sum > 255 {
        1u8
    } else {
        0u8
    };
    set_vf_flag(frame, flag);
}

/// Wrapping subtract of two registers; the flag register reports the
/// inverted borrow: 1 when no borrow occurred.
fn op_math_minus(frame: &mut VmFrame, reg1: usize, reg2: usize, store_reg: usize)
    requires
        old(frame)@.regs.len() == REGISTER_COUNT,
        reg1 < REGISTER_COUNT,
        reg2 < REGISTER_COUNT,
        store_reg < REGISTER_COUNT,
    ensures
        final(frame)@ == with_regs(
            old(frame)@,
            old(frame)@.regs.update(
                store_reg as int,
                wrap_sub(old(frame)@.regs[reg1 as int], old(frame)@.regs[reg2 as int]),
            ).update(
                FLAG_REGISTER as int,
                no_borrow_flag(old(frame)@.regs[reg1 as int], old(frame)@.regs[reg2 as int]),
            ),
        ),
{
    let a = frame.registers[reg1];
    let b = frame.registers[reg2];
    let diff: u16 = (a as u16 + 256) - (b as u16);
    frame.registers[store_reg] = (diff % 256) as u8;
    let flag: u8 = if a >= b {
        1u8
    } else {
        0u8
    };
    set_vf_flag(frame, flag);
}

/// Push the current program counter and jump.
fn op_call(frame: &mut VmFrame, address: u16)
    requires
        old(frame)@.pc + PC_INCREMENT <= u16::MAX,
    ensures
        final(frame)@ == (FrameView {
            stack: old(frame)@.stack.push(old(frame)@.pc),
            pc: address,
            ..old(frame)@
        }),
{
    let ghost pre = frame@;
    frame.stack.push(StackFrame { return_address: frame.PC });
    frame.PC = address;
    proof {
        assert(stack_views(frame.stack@) =~= pre.stack.push(pre.pc));
        assert(frame@ =~= (FrameView { stack: pre.stack.push(pre.pc), pc: address, ..pre }));
    }
}

/// Pop the saved return address into the program counter; execution-fatal
/// when the stack is empty.
fn op_return(frame: &mut VmFrame) -> (r: Result<(), Errors>)
    ensures
        old(frame)@.stack.len() > 0 ==> r == Result::<(), Errors>::Ok(()) && final(frame)@ == (
        FrameView {
            stack: old(frame)@.stack.drop_last(),
            pc: old(frame)@.stack.last(),
            ..old(frame)@
        }),
        old(frame)@.stack.len() == 0 ==> r == Result::<(), Errors>::Err(Errors::StackEmpty)
            && final(frame)@ == old(frame)@,
{
    let ghost pre = frame@;
    match frame.stack.pop() {
        Some(saved) => {
            frame.PC = saved.return_address;
            proof {
                assert(stack_views(frame.stack@) =~= pre.stack.drop_last());
                assert(frame@ =~= (FrameView {
                    stack: pre.stack.drop_last(),
                    pc: pre.stack.last(),
                    ..pre
                }));
            }
            Ok(())
        },
        None => Err(Errors::StackEmpty),
    }
}

/// Write the hundreds, tens and ones digits of a value to memory at the
/// index register.
fn op_bcd(frame: &mut VmFrame, data: u8)
    requires
        old(frame)@.mem.len() == MEMORY_SIZE,
        old(frame)@.i + 3 <= MEMORY_SIZE,
    ensures
        final(frame)@ == (FrameView {
            mem: bcd_mem(old(frame)@.mem, old(frame)@.i as int, data),
            ..old(frame)@
        }),
{
    let hundreds = data / 100;
    let tens = (data / 10) % 10;
    let ones = (data % 100) % 10;

    frame.memory[frame.I as usize] = hundreds;
    frame.memory[frame.I as usize + 1] = tens;
    frame.memory[frame.I as usize + 2] = ones;
}

/// Add a value to the index register, wrapping, with the flag register
/// reporting overflow.
fn op_mem_add_i(frame: &mut VmFrame, data: u16)
    requires
        old(frame)@.regs.len() == REGISTER_COUNT,
    ensures
        final(frame)@ == (FrameView {
            i: ((old(frame)@.i + data) % 0x10000) as u16,
            regs: old(frame)@.regs.update(
                FLAG_REGISTER as int,
                if old(frame)@.i + data > 0xFFFF {
                    1u8
                } else {
                    0u8
                },
            ),
            ..old(frame)@
        }),
{
    let sum: u32 = frame.I as u32 + data as u32;
    frame.I = (sum % 0x10000) as u16;
    let flag: u8 = if sum > 0xFFFF {
        1u8
    } else {
        0u8
    };
    set_vf_flag(frame, flag);
}

/// Copy registers 0 through `offset` to memory at the index register,
/// then advance the index register past them.
fn op_dump(frame: &mut VmFrame, offset: usize)
    requires
        old(frame)@.regs.len() == REGISTER_COUNT,
        old(frame)@.mem.len() == MEMORY_SIZE,
        offset < REGISTER_COUNT,
        old(frame)@.i + offset + 1 <= MEMORY_SIZE,
    ensures
        final(frame)@ == (FrameView {
            mem: dumped_mem(old(frame)@.mem, old(frame)@.regs, old(frame)@.i as int, offset + 1),
            i: (old(frame)@.i + offset + 1) as u16,
            ..old(frame)@
        }),
{
    let ghost pre = frame@;
    let base = frame.I as usize;
    let mut n: usize = 0;
    while n < offset + 1
        invariant
            n <= offset + 1,
            offset < REGISTER_COUNT,
            base == pre.i,
            base + offset + 1 <= MEMORY_SIZE,
            frame@.regs == pre.regs,
            frame@.regs.len() == REGISTER_COUNT,
            frame@.mem.len() == MEMORY_SIZE,
            frame@.mem == dumped_mem(pre.mem, pre.regs, pre.i as int, n as int),
            frame@.stack == pre.stack,
            frame@.pc == pre.pc,
            frame@.i == pre.i,
            frame@.delay == pre.delay,
            frame@.sound == pre.sound,
            frame@.screen == pre.screen,
        decreases offset + 1 - n,
    {
        frame.memory[base + n] = frame.registers[n];
        proof {
            assert(frame@.mem =~= dumped_mem(pre.mem, pre.regs, pre.i as int, n + 1 as int));
        }
        n = n + 1;
    }
    frame.I = frame.I + (offset as u16) + 1;
}

/// Load registers 0 through `offset` from memory at the index register,
/// then advance the index register past them.
fn op_load(frame: &mut VmFrame, offset: usize)
    requires
        old(frame)@.regs.len() == REGISTER_COUNT,
        old(frame)@.mem.len() == MEMORY_SIZE,
        offset < REGISTER_COUNT,
        old(frame)@.i + offset + 1 <= MEMORY_SIZE,
    ensures
        final(frame)@ == (FrameView {
            regs: loaded_regs(old(frame)@.regs, old(frame)@.mem, old(frame)@.i as int, offset + 1),
            i: (old(frame)@.i + offset + 1) as u16,
            ..old(frame)@
        }),
{
    let ghost pre = frame@;
    let base = frame.I as usize;
    let mut n: usize = 0;
    while n < offset + 1
        invariant
            n <= offset + 1,
            offset < REGISTER_COUNT,
            base == pre.i,
            base + offset + 1 <= MEMORY_SIZE,
            frame@.mem == pre.mem,
            frame@.regs.len() == REGISTER_COUNT,
            frame@.mem.len() == MEMORY_SIZE,
            frame@.regs == loaded_regs(pre.regs, pre.mem, pre.i as int, n as int),
            frame@.stack == pre.stack,
            frame@.pc == pre.pc,
            frame@.i == pre.i,
            frame@.delay == pre.delay,
            frame@.sound == pre.sound,
            frame@.screen == pre.screen,
        decreases offset + 1 - n,
    {
        frame.registers[n] = frame.memory[base + n];
        proof {
            assert(frame@.regs =~= loaded_regs(pre.regs, pre.mem, pre.i as int, n + 1 as int));
        }
        n = n + 1;
    }
    frame.I = frame.I + (offset as u16) + 1;
}

/// The machine: its shared devices, debugger session, tick scheduler
/// state, and the history of frames with the cursor into it.
pub struct Vm {
    pub display: VmDisplay,
    pub input: KeypadState,
    pub audio: Audio,

    pub debugger: Debugger,

    pub tick_timer: u128,
    pub tick_duration: u128,

    pub frames: Vec<VmFrame>,
    pub frame_pointer: usize,
}

/// The mathematical values of a history of frames.
pub open spec fn frame_views(frames: Seq<VmFrame>) -> Seq<FrameView> {
    Seq::new(frames.len(), |k: int| frames[k]@)
}

/// The parts of the machine an instruction never touches: the history,
/// the cursor, the scheduler state, the debugger session and the input.
pub open spec fn preserves_history(pre: &Vm, post: &Vm) -> bool {
    &&& post.frames == pre.frames
    &&& post.frame_pointer == pre.frame_pointer
    &&& post.debugger == pre.debugger
    &&& post.input == pre.input
    &&& post.tick_timer == pre.tick_timer
    &&& post.tick_duration == pre.tick_duration
}

impl Vm {
    /// Well-formedness of the machine: at least one frame, the cursor
    /// inside the history, every frame well-formed, a full framebuffer.
    pub open spec fn wf(&self) -> bool {
        &&& self.frames@.len() >= 1
        &&& (self.frame_pointer as int) < self.frames@.len()
        &&& forall|k: int| 0 <= k < self.frames@.len() ==> frame_wf((#[trigger] self.frames@[k])@)
        &&& self.display.wf()
    }

    /// Turn every pixel of the shared display off.
    fn op_clear(&mut self)
        requires
            old(self).display.wf(),
        ensures
            final(self).display.wf(),
            final(self).display.screen() == blank_screen(),
            final(self).audio == old(self).audio,
            preserves_history(old(self), final(self)),
    {
        self.display.clear();
    }

    /// XOR-blit a sprite from memory at the index register onto the
    /// shared display, recording the collision in the flag register.
    fn op_draw(&mut self, frame: &mut VmFrame, x: u8, y: u8, height: u8)
        requires
            old(self).display.wf(),
            old(frame)@.regs.len() == REGISTER_COUNT,
            old(frame)@.mem.len() == MEMORY_SIZE,
            old(frame)@.i + 8 * height <= MEMORY_SIZE,
        ensures
            final(self).display.wf(),
            final(self).audio == old(self).audio,
            preserves_history(old(self), final(self)),
            final(self).display.screen() == spec_draw(
                old(self).display.screen(),
                x as int,
                y as int,
                height as int,
                old(frame)@.mem.subrange(
                    old(frame)@.i as int,
                    old(frame)@.i as int + 8 * height,
                ),
            ),
            final(frame)@ == with_regs(
                old(frame)@,
                old(frame)@.regs.update(
                    FLAG_REGISTER as int,
                    if spec_collision(
                        old(self).display.screen(),
                        x as int,
                        y as int,
                        height as int,
                        old(frame)@.mem.subrange(
                            old(frame)@.i as int,
                            old(frame)@.i as int + 8 * height,
                        ),
                    ) {
                        1u8
                    } else {
                        0u8
                    },
                ),
            ),
    {
        let ghost pre = frame@;
        let size: usize = 8 * (height as usize);
        let base = frame.I as usize;
        let mut data: Vec<u8> = Vec::new();
        let mut k: usize = 0;
        while k < size
            invariant
                k <= size,
                size == 8 * height,
                base == pre.i,
                base + size <= MEMORY_SIZE,
                frame@ == pre,
                frame@.mem.len() == MEMORY_SIZE,
                data@ == pre.mem.subrange(pre.i as int, pre.i as int + k),
            decreases size - k,
        {
            data.push(frame.memory[base + k]);
            proof {
                assert(data@ =~= pre.mem.subrange(pre.i as int, pre.i as int + (k + 1)));
            }
            k = k + 1;
        }
        let result = self.display.draw_sprite(x as usize, y as usize, height, &data);
        let flag: u8 = match result {
            DisplayState::Changed => 1u8,
            DisplayState::Unchanged => 0u8,
        };
        set_vf_flag(frame, flag);
    }

    /// Raise the tone-request flag and load the sound timer.
    fn op_sound_set(&mut self, frame: &mut VmFrame, value: u8)
        ensures
            final(self).audio.playing,
            final(self).display == old(self).display,
            preserves_history(old(self), final(self)),
            final(frame)@ == (FrameView { sound: scaled_nanos(value), ..old(frame)@ }),
    {
        self.audio.playing = true;
        frame.sound_timer.set_scaled(value);
    }

    /// Await a key: when none is held the instruction is left to be
    /// re-issued next cycle; when one is held it is stored and the
    /// program counter advances.
    fn op_await_key(&self, frame: &mut VmFrame, reg: usize)
        requires
            old(frame)@.regs.len() == REGISTER_COUNT,
            reg < REGISTER_COUNT,
            old(frame)@.pc + PC_INCREMENT <= u16::MAX,
        ensures
            self.input.keys().len() == 0 ==> final(frame)@ == old(frame)@,
            self.input.keys().len() > 0 ==> final(frame)@ == advanced(
                with_regs(old(frame)@, old(frame)@.regs.update(reg as int, self.input.keys()[0])),
            ),
    {
        let result = self.input.get_pressed_key();
        if let Some(key) = result {
            frame.registers[reg] = key;
            increment_pc(frame);
        }
    }

    /// Skip the next instruction when the key's held state matches
    /// `jump_if_pressed`.
    fn op_key_conditional_jump(&self, frame: &mut VmFrame, key: u8, jump_if_pressed: bool)
        requires
            old(frame)@.pc + PC_INCREMENT <= u16::MAX,
        ensures
            final(frame)@ == if self.input.keys().contains(key) == jump_if_pressed {
                advanced(old(frame)@)
            } else {
                old(frame)@
            },
    {
        let is_pressed = self.input.is_pressed(key);
        if is_pressed == jump_if_pressed {
            increment_pc(frame);
        }
    }

    /// Skip the next instruction when the key is held.
    fn op_key_pressed(&self, frame: &mut VmFrame, key: u8)
        requires
            old(frame)@.pc + PC_INCREMENT <= u16::MAX,
        ensures
            final(frame)@ == if self.input.keys().contains(key) {
                advanced(old(frame)@)
            } else {
                old(frame)@
            },
    {
        self.op_key_conditional_jump(frame, key, true);
    }

    /// Skip the next instruction when the key is not held.
    fn op_key_not_pressed(&self, frame: &mut VmFrame, key: u8)
        requires
            old(frame)@.pc + PC_INCREMENT <= u16::MAX,
        ensures
            final(frame)@ == if !self.input.keys().contains(key) {
                advanced(old(frame)@)
            } else {
                old(frame)@
            },
    {
        self.op_key_conditional_jump(frame, key, false);
    }

    /// Store one random byte, masked, into a register.
    fn op_rand(&self, frame: &mut VmFrame, reg: usize, mask: u8)
        requires
            old(frame)@.regs.len() == REGISTER_COUNT,
            reg < REGISTER_COUNT,
        ensures
            exists|b: u8| final(frame)@ == #[trigger] rand_masked(old(frame)@, reg as int, b, mask),
            final(frame)@ == with_regs(old(frame)@, final(frame)@.regs),
    {
        let ghost pre = frame@;
        let number: u8 = get_random();
        frame.registers[reg] = number & mask;
        proof {
            assert(frame@ =~= rand_masked(pre, reg as int, number, mask));
        }
    }

    /// Apply one decoded instruction to a frame, with its side effects on
    /// the shared display, audio and input. The program counter advances
    /// by one instruction unless the instruction transfers control
    /// itself. The only failure is a return with an empty call stack.
    pub fn execute(&mut self, frame: &mut VmFrame, code: OpCode) -> (r: Result<(), Errors>)
        requires
            old(self).display.wf(),
            old(frame).wf(),
            execute_preconditions(old(frame)@, code),
        ensures
            final(self).display.wf(),
            final(frame).wf(),
            preserves_history(old(self), final(self)),
            final(frame)@.screen == old(frame)@.screen,
            execute_effect(
                old(frame)@,
                final(frame)@,
                code,
                old(self).display.screen(),
                final(self).display.screen(),
                old(self).audio.playing,
                final(self).audio.playing,
                old(self).input.keys(),
                r,
            ),
    {
        let mut result: Result<(), Errors> = Ok(());
        let mut inc_pc = true;

        match code {
            OpCode::Disp_Clear => self.op_clear(),
            OpCode::Disp { x, y, n } => {
                let vx = frame.registers[x];
                let vy = frame.registers[y];
                self.op_draw(frame, vx, vy, n);
            },
            OpCode::Flow_Call { nnn } => {
                op_call(frame, nnn);
                inc_pc = false;
            },
            OpCode::Flow_Return => {
                result = op_return(frame);
            },
            OpCode::Flow_Jump { nnn } => {
                frame.PC = nnn;
                inc_pc = false;
            },
            OpCode::Flow_Jump_Offset { nnn } => {
                frame.PC = frame.registers[0] as u16 + nnn;
                inc_pc = false;
            },
            OpCode::Cond_Eq_Const { x, nn } => {
                if frame.registers[x] == nn {
                    increment_pc(frame);
                }
            },
            OpCode::Cond_Neq_Const { x, nn } => {
                if frame.registers[x] != nn {
                    increment_pc(frame);
                }
            },
            OpCode::Cond_Eq_Reg { x, y } => {
                if frame.registers[x] == frame.registers[y] {
                    increment_pc(frame);
                }
            },
            OpCode::Cond_Neq_Reg { x, y } => {
                if frame.registers[x] != frame.registers[y] {
                    increment_pc(frame);
                }
            },
            OpCode::Const_Set_Reg { x, nn } => {
                frame.registers[x] = nn;
            },
            OpCode::Const_Add_Reg { x, nn } => {
                let a = frame.registers[x];
                let sum: u16 = a as u16 + nn as u16;
                frame.registers[x] = (sum % 256) as u8;
            },
            OpCode::Assign { x, y } => {
                frame.registers[x] = frame.registers[y];
            },
            OpCode::BitOp_Or { x, y } => {
                let v = frame.registers[x] | frame.registers[y];
                frame.registers[x] = v;
            },
            OpCode::BitOp_And { x, y } => {
                let v = frame.registers[x] & frame.registers[y];
                frame.registers[x] = v;
            },
            OpCode::BitOp_Xor { x, y } => {
                let v = frame.registers[x] ^ frame.registers[y];
                frame.registers[x] = v;
            },
            OpCode::BitOp_Shift_Right { x, y } => op_right_shift(frame, x, x),
            OpCode::BitOp_Shift_Left { x, y } => op_left_shift(frame, x, x),
            OpCode::Math_Add { x, y } => op_math_add(frame, x, y, x),
            OpCode::Math_Minus { x, y } => op_math_minus(frame, x, y, x),
            OpCode::Math_Minus_Reverse { x, y } => op_math_minus(frame, y, x, x),
            OpCode::KeyOp_Await { x } => {
                self.op_await_key(frame, x);
                inc_pc = false;
            },
            OpCode::KeyOp_Skip_Pressed { x } => {
                let key = frame.registers[x];
                self.op_key_pressed(frame, key);
            },
            OpCode::KeyOp_Skip_Not_Pressed { x } => {
                let key = frame.registers[x];
                self.op_key_not_pressed(frame, key);
            },
            OpCode::Rand { x, nn } => self.op_rand(frame, x, nn),
            OpCode::BCD { x } => {
                let data = frame.registers[x];
                op_bcd(frame, data);
            },
            OpCode::Timer_Delay_Get { x } => {
                let v = frame.delay_timer.get_scaled();
                frame.registers[x] = v;
            },
            OpCode::Timer_Delay_Set { x } => {
                let v = frame.registers[x];
                frame.delay_timer.set_scaled(v);
            },
            OpCode::Sound_Set { x } => {
                let v = frame.registers[x];
                self.op_sound_set(frame, v);
            },
            OpCode::MEM_Set_I { nnn } => {
                frame.I = nnn;
            },
            OpCode::MEM_Add_I { x } => {
                let v = frame.registers[x] as u16;
                op_mem_add_i(frame, v);
            },
            OpCode::MEM_Reg_Dump { x } => op_dump(frame, x),
            OpCode::MEM_Reg_Load { x } => op_load(frame, x),
            OpCode::MEM_Set_Sprite_I { x } => {
                frame.I = (frame.registers[x] as usize * FONT_SYMBOL_SIZE) as u16;
            },
            OpCode::Unknown => {},
            OpCode::Raw_Call { nnn } => {},
        };

        if inc_pc {
            increment_pc(frame);
        }

        result
    }
}

// ---------------------------------------------------------------------------
// Machine construction, the debugger gate, and the history of frames.
// ---------------------------------------------------------------------------

/// The duration of one emulated cycle in nanoseconds at the configured
/// rate: the 60 Hz tick length divided by the speed multiplier. A rate of
/// zero is the degenerate uncapped mode.
pub open spec fn spec_tick_duration(hz: u128) -> u128 {
    if hz == 0 {
        0u128
    } else {
        (((NANOS_PER_SECOND / VM_ORIGINAL_HZ) * VM_ORIGINAL_HZ) as u128) / hz
    }
}

/// Memory as the loader leaves it: the font table in the reserved low
/// region, the program at the load address, zero elsewhere.
pub open spec fn loaded_memory(rom: Seq<u8>) -> Seq<u8> {
    Seq::new(
        MEMORY_SIZE as nat,
        |j: int|
            if j < FONT_TABLE_SIZE {
                font_seq()[j]
            } else if j < VM_RESERVED_BEGIN {
                0u8
            } else if j < VM_RESERVED_BEGIN + rom.len() {
                rom[j - VM_RESERVED_BEGIN]
            } else {
                0u8
            },
    )
}

/// The state of a machine fresh from construction.
pub open spec fn vm_initial(vm: Vm, rom: Seq<u8>, hz: u128, debugger_enabled: bool) -> bool {
    &&& vm.wf()
    &&& vm.frames@.len() == 1
    &&& vm.frames@[0]@ == (FrameView { mem: loaded_memory(rom), ..initial_frame_view() })
    &&& vm.frame_pointer == 0
    &&& vm.display.screen() == blank_screen()
    &&& !vm.audio.playing
    &&& vm.input.keys() == Seq::<u8>::empty()
    &&& vm.debugger.enabled == debugger_enabled
    &&& !vm.debugger.enable_break
    &&& vm.debugger.pending@ == Seq::<DebuggerCommand>::empty()
    &&& vm.debugger.reports@ == Seq::<DebugReport>::empty()
    &&& vm.tick_timer == 0
    &&& vm.tick_duration == spec_tick_duration(hz)
}

/// The instruction a frame is about to execute, where its program counter
/// still points at a whole instruction word.
pub open spec fn frame_opcode(f: FrameView) -> Option<OpCode> {
    if f.pc + 2 <= MEMORY_SIZE {
        Option::Some(spec_decode(spec_fetch(f)))
    } else {
        Option::None
    }
}

/// The debugger gate's running state while draining the command queue:
/// the cursor, the live-resume signal, and the reports produced so far.
#[verifier::ext_equal]
pub ghost struct DrainState {
    pub fp: int,
    pub resume: bool,
    pub reports: Seq<ReportView>,
}

/// One step of draining the command queue while broken: how the cursor,
/// the live-resume signal and the report list change under one command.
pub open spec fn drain_step(
    fviews: Seq<FrameView>,
    d: DrainState,
    cmd: DebuggerCommand,
) -> DrainState {
    match cmd {
        DebuggerCommand::Next => if d.fp < fviews.len() - 1 {
            DrainState {
                fp: d.fp + 1,
                resume: d.resume,
                reports: d.reports.push(
                    ReportView::Stepped { command: cmd, opcode: frame_opcode(fviews[d.fp + 1]) },
                ),
            }
        } else {
            DrainState { resume: true, ..d }
        },
        DebuggerCommand::Previous => if d.fp > 0 {
            DrainState {
                fp: d.fp - 1,
                resume: d.resume,
                reports: d.reports.push(
                    ReportView::Stepped { command: cmd, opcode: frame_opcode(fviews[d.fp - 1]) },
                ),
            }
        } else {
            d
        },
        DebuggerCommand::PrintRegisters => DrainState {
            reports: d.reports.push(
                ReportView::Registers {
                    registers: fviews[d.fp].regs,
                    pc: fviews[d.fp].pc,
                    i: fviews[d.fp].i,
                },
            ),
            ..d
        },
        DebuggerCommand::PrintStack => DrainState {
            reports: d.reports.push(ReportView::Stack { return_addresses: fviews[d.fp].stack }),
            ..d
        },
        DebuggerCommand::PrintTimers => DrainState {
            reports: d.reports.push(
                ReportView::Timers {
                    delay_scaled: scaled_view(fviews[d.fp].delay),
                    delay_raw: fviews[d.fp].delay,
                    sound_scaled: scaled_view(fviews[d.fp].sound),
                    sound_raw: fviews[d.fp].sound,
                },
            ),
            ..d
        },
    }
}

/// Draining a whole queue of commands, oldest first.
pub open spec fn drain_from(
    fviews: Seq<FrameView>,
    d: DrainState,
    cmds: Seq<DebuggerCommand>,
) -> DrainState
    decreases cmds.len(),
{
    if cmds.len() == 0 {
        d
    } else {
        drain_from(fviews, drain_step(fviews, d, cmds[0]), cmds.subrange(1, cmds.len() as int))
    }
}

/// Draining a whole queue from a quiet start.
pub open spec fn drain_all(
    fviews: Seq<FrameView>,
    fp: int,
    cmds: Seq<DebuggerCommand>,
) -> DrainState {
    drain_from(fviews, DrainState { fp, resume: false, reports: Seq::empty() }, cmds)
}

/// Draining a queue with one more command at its end drains the queue,
/// then steps once on the last command.
proof fn lemma_drain_snoc(
    fviews: Seq<FrameView>,
    d: DrainState,
    cmds: Seq<DebuggerCommand>,
    cmd: DebuggerCommand,
)
    ensures
        drain_from(fviews, d, cmds.push(cmd)) == drain_step(
            fviews,
            drain_from(fviews, d, cmds),
            cmd,
        ),
    decreases cmds.len(),
{
    let p = cmds.push(cmd);
    if cmds.len() == 0 {
        assert(p[0] == cmd);
        assert(p.subrange(1, p.len() as int) =~= Seq::<DebuggerCommand>::empty());
        assert(drain_from(fviews, d, p) == drain_from(
            fviews,
            drain_step(fviews, d, cmd),
            p.subrange(1, p.len() as int),
        ));
        assert(drain_from(fviews, drain_step(fviews, d, cmd), Seq::<DebuggerCommand>::empty())
            == drain_step(fviews, d, cmd));
        assert(drain_from(fviews, d, cmds) == d);
    } else {
        let d0 = drain_step(fviews, d, cmds[0]);
        let rest = cmds.subrange(1, cmds.len() as int);
        assert(p[0] == cmds[0]);
        assert(p.subrange(1, p.len() as int) =~= rest.push(cmd));
        assert(drain_from(fviews, d, p) == drain_from(fviews, d0, rest.push(cmd)));
        lemma_drain_snoc(fviews, d0, rest, cmd);
        assert(drain_from(fviews, d, cmds) == drain_from(fviews, d0, rest));
    }
}

/// The instruction the given frame is about to execute, where its program
/// counter is still valid.
fn current_opcode(frame: &VmFrame) -> (r: Option<OpCode>)
    requires
        frame.wf(),
    ensures
        r == frame_opcode(frame@),
{
    if frame.PC as usize + 2 <= MEMORY_SIZE {
        Some(decode(fetch(frame)))
    } else {
        None
    }
}

impl Vm {
    /// Validate and load a program, returning the constructed machine.
    /// Fails exactly when the program is empty or does not fit.
    pub fn new(rom: &Vec<u8>, hz: u128, debugger_enabled: bool) -> (r: Result<Vm, Errors>)
        ensures
            rom@.len() == 0 ==> r == Result::<Vm, Errors>::Err(Errors::RomEmpty),
            rom@.len() > ROM_SIZE ==> r == Result::<Vm, Errors>::Err(
                Errors::RomTooBig { size: rom@.len() as usize, max: ROM_SIZE },
            ),
            0 < rom@.len() <= ROM_SIZE ==> (r matches Ok(vm) && vm_initial(
                vm,
                rom@,
                hz,
                debugger_enabled,
            )),
    {
        if rom.len() == 0 {
            return Err(Errors::RomEmpty);
        }
        if rom.len() > ROM_SIZE {
            return Err(Errors::RomTooBig { size: rom.len(), max: ROM_SIZE });
        }

        let mut frame = VmFrame::new();
        let ghost blank = frame@;

        let mut n: usize = 0;
        while n < rom.len()
            invariant
                n <= rom@.len(),
                rom@.len() <= ROM_SIZE,
                frame@.mem.len() == MEMORY_SIZE,
                forall|j: int|
                    0 <= j < MEMORY_SIZE ==> frame@.mem[j] == if VM_RESERVED_BEGIN <= j
                        < VM_RESERVED_BEGIN + n {
                        rom@[j - VM_RESERVED_BEGIN]
                    } else {
                        blank.mem[j]
                    },
                frame@.regs == blank.regs,
                frame@.stack == blank.stack,
                frame@.pc == blank.pc,
                frame@.i == blank.i,
                frame@.delay == blank.delay,
                frame@.sound == blank.sound,
                frame@.screen == blank.screen,
            decreases rom@.len() - n,
        {
            frame.memory[VM_RESERVED_BEGIN + n] = rom[n];
            n = n + 1;
        }

        let fonts = font_table();
        let ghost romed = frame@;
        let mut n: usize = 0;
        while n < FONT_TABLE_SIZE
            invariant
                n <= FONT_TABLE_SIZE,
                fonts@ == font_seq(),
                frame@.mem.len() == MEMORY_SIZE,
                forall|j: int|
                    0 <= j < MEMORY_SIZE ==> frame@.mem[j] == if 0 <= j < n {
                        font_seq()[j]
                    } else {
                        romed.mem[j]
                    },
                frame@.regs == romed.regs,
                frame@.stack == romed.stack,
                frame@.pc == romed.pc,
                frame@.i == romed.i,
                frame@.delay == romed.delay,
                frame@.sound == romed.sound,
                frame@.screen == romed.screen,
            decreases FONT_TABLE_SIZE - n,
        {
            frame.memory[n] = fonts[n];
            n = n + 1;
        }
        proof {
            assert(frame@.mem =~= loaded_memory(rom@));
            assert(frame@ =~= (FrameView { mem: loaded_memory(rom@), ..initial_frame_view() }));
        }

        let mut frames: Vec<VmFrame> = Vec::new();
        frames.push(frame);

        let tick_duration: u128 = if hz == 0 {
            0u128
        } else {
            ((NANOS_PER_SECOND / VM_ORIGINAL_HZ) * VM_ORIGINAL_HZ) / hz
        };

        let vm = Vm {
            display: VmDisplay::new(),
            input: KeypadState::new(),
            audio: Audio::new(),
            debugger: Debugger::new(debugger_enabled),
            tick_timer: 0,
            tick_duration,
            frames,
            frame_pointer: 0,
        };
        Ok(vm)
    }

    /// While broken, drain all pending commands, force the display to the
    /// frame at the cursor, and report whether a cycle should execute;
    /// while not broken, execute unconditionally.
    fn process_debugger(&mut self) -> (execute: bool)
        requires
            old(self).wf(),
            old(self).debugger.enabled,
        ensures
            final(self).wf(),
            final(self).frames == old(self).frames,
            final(self).input == old(self).input,
            final(self).audio == old(self).audio,
            final(self).tick_timer == old(self).tick_timer,
            final(self).tick_duration == old(self).tick_duration,
            final(self).debugger.enabled == old(self).debugger.enabled,
            final(self).debugger.enable_break == old(self).debugger.enable_break,
            !old(self).debugger.enable_break ==> ({
                &&& execute
                &&& final(self).frame_pointer == old(self).frame_pointer
                &&& final(self).debugger == old(self).debugger
                &&& final(self).display == old(self).display
            }),
            old(self).debugger.enable_break ==> ({
                let d = drain_all(
                    frame_views(old(self).frames@),
                    old(self).frame_pointer as int,
                    old(self).debugger.pending@,
                );
                &&& final(self).frame_pointer == d.fp
                &&& execute == d.resume
                &&& report_views(final(self).debugger.reports@) == report_views(
                    old(self).debugger.reports@,
                ) + d.reports
                &&& final(self).debugger.pending@ == Seq::<DebuggerCommand>::empty()
                &&& final(self).display.screen() == frame_views(old(self).frames@)[d.fp].screen
            }),
    {
        if self.debugger.enable_break {
            let ghost fviews = frame_views(self.frames@);
            let ghost frames_vec0 = self.frames;
            let ghost frames0 = self.frames@;
            let ghost fp0 = self.frame_pointer as int;
            let ghost pending0 = self.debugger.pending@;
            let ghost reports0 = report_views(self.debugger.reports@);
            let ghost display0 = self.display;
            let ghost audio0 = self.audio;
            let ghost input0 = self.input;
            let ghost tt0 = self.tick_timer;
            let ghost td0 = self.tick_duration;

            let mut result = false;
            let mut i: usize = 0;
            let n = self.debugger.pending.len();
            while i < n
                invariant
                    i <= n,
                    n == pending0.len(),
                    self.debugger.pending@ == pending0,
                    self.debugger.enabled,
                    self.debugger.enable_break,
                    self.frames == frames_vec0,
                    self.frames@ == frames0,
                    fviews == frame_views(frames0),
                    self.frames@.len() >= 1,
                    (self.frame_pointer as int) < self.frames@.len(),
                    forall|k: int|
                        0 <= k < self.frames@.len() ==> frame_wf((#[trigger] self.frames@[k])@),
                    self.display == display0,
                    self.audio == audio0,
                    self.input == input0,
                    self.tick_timer == tt0,
                    self.tick_duration == td0,
                    ({
                        let d = drain_from(
                            fviews,
                            DrainState { fp: fp0, resume: false, reports: Seq::empty() },
                            pending0.subrange(0, i as int),
                        );
                        &&& self.frame_pointer as int == d.fp
                        &&& result == d.resume
                        &&& report_views(self.debugger.reports@) == reports0 + d.reports
                    }),
                decreases n - i,
            {
                let ghost d_pre = drain_from(
                    fviews,
                    DrainState { fp: fp0, resume: false, reports: Seq::empty() },
                    pending0.subrange(0, i as int),
                );
                let ghost d_post = drain_step(fviews, d_pre, pending0[i as int]);
                let cmd = self.debugger.pending[i];
                match cmd {
                    DebuggerCommand::Next => {
                        if self.frame_pointer < self.frames.len() - 1 {
                            self.frame_pointer = self.frame_pointer + 1;
                            let opcode = current_opcode(&self.frames[self.frame_pointer]);
                            self.debugger.reports.push(
                                DebugReport::Stepped { command: cmd, opcode },
                            );
                            proof {
                                let cur = self.debugger.reports@;
                                assert(cur.last()@ == ReportView::Stepped {
                                    command: pending0[i as int],
                                    opcode: frame_opcode(fviews[d_pre.fp + 1]),
                                });
                                assert(cur.len() == (reports0 + d_pre.reports).len() + 1);
                                assert(report_views(cur).len() == cur.len());
                                let lhs = report_views(cur);
                                let rhs = reports0 + d_post.reports;
                                assert(d_post.reports == d_pre.reports.push(ReportView::Stepped {
                                    command: pending0[i as int],
                                    opcode: frame_opcode(fviews[d_pre.fp + 1]),
                                }));
                                assert(lhs.len() == rhs.len());
                                assert(lhs[lhs.len() - 1] == rhs[lhs.len() - 1]);
                                assert forall|k: int| 0 <= k < lhs.len() - 1 implies lhs[k]
                                    == rhs[k] by {
                                    assert(lhs[k] == (reports0 + d_pre.reports)[k]);
                                    assert(rhs[k] == (reports0 + d_pre.reports)[k]);
                                }
                                assert(lhs =~= rhs);
                            }
                        } else {
                            result = true;
                            proof {
                                assert(d_post.reports == d_pre.reports);
                                assert(report_views(self.debugger.reports@) == reports0
                                    + d_post.reports);
                            }
                        }
                    },
                    DebuggerCommand::Previous => {
                        if self.frame_pointer > 0 {
                            self.frame_pointer = self.frame_pointer - 1;
                            let opcode = current_opcode(&self.frames[self.frame_pointer]);
                            self.debugger.reports.push(
                                DebugReport::Stepped { command: cmd, opcode },
                            );
                            proof {
                                let cur = self.debugger.reports@;
                                assert(cur.last()@ == ReportView::Stepped {
                                    command: pending0[i as int],
                                    opcode: frame_opcode(fviews[d_pre.fp - 1]),
                                });
                                assert(cur.len() == (reports0 + d_pre.reports).len() + 1);
                                assert(report_views(cur).len() == cur.len());
                                let lhs = report_views(cur);
                                let rhs = reports0 + d_post.reports;
                                assert(d_post.reports == d_pre.reports.push(ReportView::Stepped {
                                    command: pending0[i as int],
                                    opcode: frame_opcode(fviews[d_pre.fp - 1]),
                                }));
                                assert(lhs.len() == rhs.len());
                                assert(lhs[lhs.len() - 1] == rhs[lhs.len() - 1]);
                                assert forall|k: int| 0 <= k < lhs.len() - 1 implies lhs[k]
                                    == rhs[k] by {
                                    assert(lhs[k] == (reports0 + d_pre.reports)[k]);
                                    assert(rhs[k] == (reports0 + d_pre.reports)[k]);
                                }
                                assert(lhs =~= rhs);
                            }
                        } else {
                            proof {
                                assert(d_post.reports == d_pre.reports);
                                assert(report_views(self.debugger.reports@) == reports0
                                    + d_post.reports);
                            }
                        }
                    },
                    DebuggerCommand::PrintRegisters => {
                        let registers = clone_bytes(&self.frames[self.frame_pointer].registers);
                        let pc = self.frames[self.frame_pointer].PC;
                        let i_reg = self.frames[self.frame_pointer].I;
                        self.debugger.reports.push(
                            DebugReport::Registers { registers, pc, i: i_reg },
                        );
                        proof {
                            let cur = self.debugger.reports@;
                            assert(cur.last()@ == ReportView::Registers {
                            registers: fviews[d_pre.fp].regs,
                            pc: fviews[d_pre.fp].pc,
                            i: fviews[d_pre.fp].i,
                        });
                            assert(cur.len() == (reports0 + d_pre.reports).len() + 1);
                            assert(report_views(cur).len() == cur.len());
                            let lhs = report_views(cur);
                            let rhs = reports0 + d_post.reports;
                            assert(d_post.reports == d_pre.reports.push(ReportView::Registers {
                            registers: fviews[d_pre.fp].regs,
                            pc: fviews[d_pre.fp].pc,
                            i: fviews[d_pre.fp].i,
                        }));
                            assert(lhs.len() == rhs.len());
                            assert(lhs[lhs.len() - 1] == rhs[lhs.len() - 1]);
                            assert forall|k: int| 0 <= k < lhs.len() - 1 implies lhs[k]
                                == rhs[k] by {
                                assert(lhs[k] == (reports0 + d_pre.reports)[k]);
                                assert(rhs[k] == (reports0 + d_pre.reports)[k]);
                            }
                            assert(lhs =~= rhs);
                        }
                    },
                    DebuggerCommand::PrintStack => {
                        let mut return_addresses: Vec<u16> = Vec::new();
                        let mut k: usize = 0;
                        let depth = self.frames[self.frame_pointer].stack.len();
                        while k < depth
                            invariant
                                k <= depth,
                                (self.frame_pointer as int) < self.frames@.len(),
                                depth == self.frames@[self.frame_pointer as int].stack@.len(),
                                return_addresses@ == stack_views(
                                    self.frames@[self.frame_pointer as int].stack@,
                                ).subrange(0, k as int),
                            decreases depth - k,
                        {
                            let sf = self.frames[self.frame_pointer].stack[k];
                            return_addresses.push(sf.return_address);
                            proof {
                                assert(return_addresses@ =~= stack_views(
                                    self.frames@[self.frame_pointer as int].stack@,
                                ).subrange(0, k + 1 as int));
                            }
                            k = k + 1;
                        }
                        proof {
                            assert(return_addresses@ =~= stack_views(
                                self.frames@[self.frame_pointer as int].stack@,
                            ));
                        }
                        self.debugger.reports.push(DebugReport::Stack { return_addresses });
                        proof {
                            let cur = self.debugger.reports@;
                            assert(cur.last()@ == ReportView::Stack {
                            return_addresses: fviews[d_pre.fp].stack,
                        });
                            assert(cur.len() == (reports0 + d_pre.reports).len() + 1);
                            assert(report_views(cur).len() == cur.len());
                            let lhs = report_views(cur);
                            let rhs = reports0 + d_post.reports;
                            assert(d_post.reports == d_pre.reports.push(ReportView::Stack {
                            return_addresses: fviews[d_pre.fp].stack,
                        }));
                            assert(lhs.len() == rhs.len());
                            assert(lhs[lhs.len() - 1] == rhs[lhs.len() - 1]);
                            assert forall|k: int| 0 <= k < lhs.len() - 1 implies lhs[k]
                                == rhs[k] by {
                                assert(lhs[k] == (reports0 + d_pre.reports)[k]);
                                assert(rhs[k] == (reports0 + d_pre.reports)[k]);
                            }
                            assert(lhs =~= rhs);
                        }
                    },
                    DebuggerCommand::PrintTimers => {
                        let delay_scaled = self.frames[self.frame_pointer].delay_timer.get_scaled();
                        let delay_raw = self.frames[self.frame_pointer].delay_timer.get();
                        let sound_scaled = self.frames[self.frame_pointer].sound_timer.get_scaled();
                        let sound_raw = self.frames[self.frame_pointer].sound_timer.get();
                        self.debugger.reports.push(
                            DebugReport::Timers {
                                delay_scaled,
                                delay_raw,
                                sound_scaled,
                                sound_raw,
                            },
                        );
                        proof {
                            let cur = self.debugger.reports@;
                            assert(cur.last()@ == ReportView::Timers {
                            delay_scaled: scaled_view(fviews[d_pre.fp].delay),
                            delay_raw: fviews[d_pre.fp].delay,
                            sound_scaled: scaled_view(fviews[d_pre.fp].sound),
                            sound_raw: fviews[d_pre.fp].sound,
                        });
                            assert(cur.len() == (reports0 + d_pre.reports).len() + 1);
                            assert(report_views(cur).len() == cur.len());
                            let lhs = report_views(cur);
                            let rhs = reports0 + d_post.reports;
                            assert(d_post.reports == d_pre.reports.push(ReportView::Timers {
                            delay_scaled: scaled_view(fviews[d_pre.fp].delay),
                            delay_raw: fviews[d_pre.fp].delay,
                            sound_scaled: scaled_view(fviews[d_pre.fp].sound),
                            sound_raw: fviews[d_pre.fp].sound,
                        }));
                            assert(lhs.len() == rhs.len());
                            assert(lhs[lhs.len() - 1] == rhs[lhs.len() - 1]);
                            assert forall|k: int| 0 <= k < lhs.len() - 1 implies lhs[k]
                                == rhs[k] by {
                                assert(lhs[k] == (reports0 + d_pre.reports)[k]);
                                assert(rhs[k] == (reports0 + d_pre.reports)[k]);
                            }
                            assert(lhs =~= rhs);
                        }
                    },
                }
                proof {
                    assert(pending0.subrange(0, i + 1 as int) =~= pending0.subrange(
                        0,
                        i as int,
                    ).push(pending0[i as int]));
                    lemma_drain_snoc(
                        fviews,
                        DrainState { fp: fp0, resume: false, reports: Seq::empty() },
                        pending0.subrange(0, i as int),
                        pending0[i as int],
                    );
                    assert(self.frame_pointer as int == d_post.fp);
                    assert(result == d_post.resume);
                    assert(report_views(self.debugger.reports@) == reports0 + d_post.reports);
                }
                i = i + 1;
            }
            proof {
                assert(pending0.subrange(0, n as int) =~= pending0);
            }
            self.debugger.pending = Vec::new();
            let screen_copy = clone_bytes(&self.frames[self.frame_pointer].screen);
            self.display.set_screen(&screen_copy);
            result
        } else {
            true
        }
    }

    /// Record the cycle's resulting frame: append it to history (or, when
    /// the cursor sits mid-history, overwrite the cursor slot and the next
    /// slot) and advance the cursor; with the debugger disabled, overwrite
    /// the single current frame.
    fn update_stack(&mut self, frame: VmFrame)
        requires
            old(self).wf(),
            frame.wf(),
        ensures
            final(self).wf(),
            final(self).audio == old(self).audio,
            final(self).input == old(self).input,
            final(self).tick_timer == old(self).tick_timer,
            final(self).tick_duration == old(self).tick_duration,
            final(self).debugger == old(self).debugger,
            final(self).display == old(self).display,
            old(self).debugger.enabled ==> ({
                let newf = FrameView { screen: old(self).display.screen(), ..frame@ };
                &&& final(self).frame_pointer == old(self).frame_pointer + 1
                &&& if old(self).frame_pointer + 1 == old(self).frames@.len() {
                    frame_views(final(self).frames@) == frame_views(old(self).frames@).push(newf)
                } else {
                    frame_views(final(self).frames@) == frame_views(old(self).frames@).update(
                        old(self).frame_pointer as int,
                        newf,
                    ).update(old(self).frame_pointer as int + 1, newf)
                }
            }),
            !old(self).debugger.enabled ==> ({
                &&& final(self).frame_pointer == old(self).frame_pointer
                &&& frame_views(final(self).frames@) == frame_views(old(self).frames@).update(
                    old(self).frame_pointer as int,
                    frame@,
                )
            }),
    {
        let ghost frame0 = frame@;
        if self.debugger.enabled {
            let mut frame = frame;
            frame.screen = clone_bytes(self.display.get_screen());
            let ghost newf = frame@;

            let len = self.frames.len();
            assert(self.frame_pointer < len);
            proof {
                assert(newf.stack == frame0.stack);
                assert(newf.screen.len() == SCREEN_SIZE);
                assert(frame_wf(newf));
            }
            if self.frame_pointer + 1 == len {
                self.frames.push(frame);
                proof {
                    assert(frame_views(self.frames@) =~= frame_views(old(self).frames@).push(
                        newf,
                    ));
                }
            } else {
                let copy = frame.duplicate();
                let fp = self.frame_pointer;
                self.frames[fp] = copy;
                self.frames[fp + 1] = frame;
                proof {
                    assert(frame_views(self.frames@) =~= frame_views(old(self).frames@).update(
                        fp as int,
                        newf,
                    ).update(fp as int + 1, newf));
                }
            }
            self.frame_pointer = self.frame_pointer + 1;
            proof {
                assert forall|k: int| 0 <= k < self.frames@.len() implies frame_wf(
                    (#[trigger] self.frames@[k])@,
                ) by {
                    assert(frame_views(self.frames@)[k] == self.frames@[k]@);
                    if k < old(self).frames@.len() {
                        assert(frame_views(old(self).frames@)[k] == old(self).frames@[k]@);
                        assert(frame_wf(old(self).frames@[k]@));
                    }
                }
            }
        } else {
            let fp = self.frame_pointer;
            self.frames[fp] = frame;
            proof {
                assert(frame_views(self.frames@) =~= frame_views(old(self).frames@).update(
                    fp as int,
                    frame@,
                ));
                assert forall|k: int| 0 <= k < self.frames@.len() implies frame_wf(
                    (#[trigger] self.frames@[k])@,
                ) by {
                    assert(frame_views(self.frames@)[k] == self.frames@[k]@);
                    if k != fp as int {
                        assert(frame_views(old(self).frames@)[k] == old(self).frames@[k]@);
                        assert(frame_wf(old(self).frames@[k]@));
                    }
                }
            }
        }
    }
}

// ---------------------------------------------------------------------------
// The tick scheduler.
// ---------------------------------------------------------------------------

/// Whether the accumulated elapsed time has crossed the tick duration, so
/// that this call runs the cycle gate.
pub open spec fn fires(vm: &Vm) -> bool {
    vm.tick_timer > vm.tick_duration
}

/// The time charged against the timers for one executed cycle: the tick
/// duration, or the raw elapsed delta in uncapped mode.
pub open spec fn effective_timer_delta(duration: u128, delta: u128) -> u128 {
    if duration == 0 {
        delta
    } else {
        duration
    }
}

/// A timer value after one cycle's decrement, saturating at zero.
pub open spec fn timer_decremented(t: u128, d: u128) -> u128 {
    if t >= d {
        (t - d) as u128
    } else {
        0u128
    }
}

/// The cycle gate's decision for a firing tick: with the debugger
/// disabled or not broken, execute from the current cursor; while broken,
/// drain the queue.
pub open spec fn gate_of(vm: &Vm) -> DrainState {
    if !vm.debugger.enabled || !vm.debugger.enable_break {
        DrainState { fp: vm.frame_pointer as int, resume: true, reports: Seq::empty() }
    } else {
        drain_all(frame_views(vm.frames@), vm.frame_pointer as int, vm.debugger.pending@)
    }
}

/// What one executed cycle does to the machine: the cursor frame, its
/// timers decremented (clearing the tone when the sound timer runs out),
/// is put through fetch, decode and execute, and the result is recorded
/// in history.
pub open spec fn cycle_effect(pre: &Vm, post: &Vm, delta: u128, r: Result<(), Errors>) -> bool {
    let g = gate_of(pre);
    let broken = pre.debugger.enabled && pre.debugger.enable_break;
    let pviews = frame_views(pre.frames@);
    let f0 = pviews[g.fp];
    let td = effective_timer_delta(pre.tick_duration, delta);
    let dec_sound = timer_decremented(f0.sound, td);
    let f1 = FrameView {
        delay: timer_decremented(f0.delay, td),
        sound: dec_sound,
        ..f0
    };
    let audio_mid = if f0.sound > 0 && dec_sound == 0 {
        false
    } else {
        pre.audio.playing
    };
    let screen_mid = if broken {
        f0.screen
    } else {
        pre.display.screen()
    };
    let code = spec_decode(spec_fetch(f1));
    if pre.debugger.enabled {
        let newf = frame_views(post.frames@)[g.fp + 1];
        &&& post.frame_pointer == g.fp + 1
        &&& post.frames@.len() == (if g.fp + 1 == pviews.len() {
            pviews.len() + 1
        } else {
            pviews.len()
        })
        &&& (forall|k: int|
            0 <= k < pviews.len() && k != g.fp && k != g.fp + 1 ==> frame_views(post.frames@)[k]
                == #[trigger] pviews[k])
        &&& (g.fp + 1 < pviews.len() ==> frame_views(post.frames@)[g.fp] == newf)
        &&& (g.fp + 1 == pviews.len() ==> frame_views(post.frames@)[g.fp] == pviews[g.fp])
        &&& newf.screen == post.display.screen()
        &&& execute_effect(
            f1,
            FrameView { screen: f0.screen, ..newf },
            code,
            screen_mid,
            post.display.screen(),
            audio_mid,
            post.audio.playing,
            pre.input.keys(),
            r,
        )
    } else {
        &&& post.frame_pointer == g.fp
        &&& post.frames@.len() == pviews.len()
        &&& (forall|k: int|
            0 <= k < pviews.len() && k != g.fp ==> frame_views(post.frames@)[k]
                == #[trigger] pviews[k])
        &&& execute_effect(
            f1,
            frame_views(post.frames@)[g.fp],
            code,
            screen_mid,
            post.display.screen(),
            audio_mid,
            post.audio.playing,
            pre.input.keys(),
            r,
        )
    }
}

/// The complete effect of a firing tick: pending commands drained while
/// broken, reports appended, and either a refused cycle (display forced
/// to the cursor frame) or an executed one.
pub open spec fn tick_fire_effect(pre: &Vm, post: &Vm, delta: u128, r: Result<(), Errors>) -> bool {
    let g = gate_of(pre);
    let broken = pre.debugger.enabled && pre.debugger.enable_break;
    &&& post.debugger.pending@ == (if broken {
        Seq::<DebuggerCommand>::empty()
    } else {
        pre.debugger.pending@
    })
    &&& report_views(post.debugger.reports@) == report_views(pre.debugger.reports@) + g.reports
    &&& (!g.resume ==> ({
        &&& r == Result::<(), Errors>::Ok(())
        &&& post.frame_pointer == g.fp
        &&& post.frames == pre.frames
        &&& post.display.screen() == frame_views(pre.frames@)[g.fp].screen
        &&& post.audio == pre.audio
    }))
    &&& (g.resume ==> cycle_effect(pre, post, delta, r))
}

/// What a tick demands before it is called: a well-formed machine; room
/// to accumulate the delta; and, where a cycle would execute, a cursor
/// frame whose program counter points at a whole instruction word and
/// whose decoded instruction stays in bounds.
pub open spec fn tick_ready(vm: &Vm, delta: u128) -> bool {
    &&& vm.wf()
    &&& (!fires(vm) ==> vm.tick_timer + delta <= u128::MAX)
    &&& (fires(vm) ==> ({
        let g = gate_of(vm);
        g.resume ==> ({
            let f0 = frame_views(vm.frames@)[g.fp];
            &&& f0.pc + 2 <= MEMORY_SIZE
            &&& execute_preconditions(f0, spec_decode(spec_fetch(f0)))
        })
    }))
}

impl Vm {
    /// The frame at the cursor.
    pub fn get_current_frame(&self) -> (r: &VmFrame)
        requires
            self.wf(),
        ensures
            r@ == frame_views(self.frames@)[self.frame_pointer as int],
            r.wf(),
    {
        let r = &self.frames[self.frame_pointer];
        proof {
            assert(frame_views(self.frames@)[self.frame_pointer as int] == self.frames@[self.frame_pointer as int]@);
        }
        r
    }

    /// A working copy of the frame at the cursor.
    fn next_frame(&self) -> (r: VmFrame)
        requires
            self.wf(),
        ensures
            r@ == frame_views(self.frames@)[self.frame_pointer as int],
            r.wf(),
    {
        self.get_current_frame().duplicate()
    }

    /// Accumulate `delta` nanoseconds of elapsed wall time; once the
    /// accumulator has crossed the tick duration, reset it, ask the
    /// debugger gate whether to run, and if so execute one cycle:
    /// decrement the timers, fetch, decode, execute, and record the new
    /// frame in history.
    pub fn tick(&mut self, delta: u128) -> (r: Result<(), Errors>)
        requires
            tick_ready(old(self), delta),
        ensures
            final(self).wf(),
            final(self).tick_duration == old(self).tick_duration,
            final(self).input == old(self).input,
            final(self).debugger.enabled == old(self).debugger.enabled,
            final(self).debugger.enable_break == old(self).debugger.enable_break,
            !fires(old(self)) ==> ({
                &&& r == Result::<(), Errors>::Ok(())
                &&& final(self).tick_timer == old(self).tick_timer + delta
                &&& final(self).frames == old(self).frames
                &&& final(self).frame_pointer == old(self).frame_pointer
                &&& final(self).display == old(self).display
                &&& final(self).audio == old(self).audio
                &&& final(self).debugger == old(self).debugger
            }),
            fires(old(self)) ==> final(self).tick_timer == 0 && tick_fire_effect(
                old(self),
                final(self),
                delta,
                r,
            ),
    {
        let mut result: Result<(), Errors> = Ok(());

        if self.tick_timer > self.tick_duration {
            self.tick_timer = 0;

            let execute_cycle = if self.debugger.enabled {
                self.process_debugger()
            } else {
                true
            };
            proof {
                assert(execute_cycle == gate_of(old(self)).resume);
                assert(self.frame_pointer as int == gate_of(old(self)).fp);
            }

            if execute_cycle {
                let ghost g = gate_of(old(self));
                let ghost f0 = frame_views(old(self).frames@)[g.fp];
                let mut frame = self.next_frame();
                proof {
                    assert(frame@ == f0);
                }

                let timer_delta = if self.tick_duration == 0 {
                    delta
                } else {
                    self.tick_duration
                };

                if frame.delay_timer.get() > 0 {
                    let dt = frame.delay_timer.get_mut();
                    let cur = *dt;
                    *dt = if cur >= timer_delta {
                        cur - timer_delta
                    } else {
                        0u128
                    };
                }

                if frame.sound_timer.get() > 0 {
                    let st = frame.sound_timer.get_mut();
                    let cur = *st;
                    *st = if cur >= timer_delta {
                        cur - timer_delta
                    } else {
                        0u128
                    };
                    if frame.sound_timer.get() == 0 {
                        self.audio.playing = false;
                    }
                }
                let ghost td = effective_timer_delta(old(self).tick_duration, delta);
                proof {
                    assert(frame@ =~= (FrameView {
                        delay: timer_decremented(f0.delay, td),
                        sound: timer_decremented(f0.sound, td),
                        ..f0
                    }));
                }

                let raw_opcode = fetch(&frame);
                let opcode = decode(raw_opcode);
                proof {
                    assert(spec_fetch(frame@) == spec_fetch(f0));
                    assert(execute_preconditions(frame@, opcode) == execute_preconditions(
                        f0,
                        opcode,
                    ));
                }

                result = self.execute(&mut frame, opcode);
                let ghost f2 = frame@;
                let ghost f1v = (FrameView {
                    delay: timer_decremented(f0.delay, td),
                    sound: timer_decremented(f0.sound, td),
                    ..f0
                });
                let ghost screen1 = self.display.screen();
                let ghost audio1 = self.audio.playing;

                self.update_stack(frame);
                proof {
                    let pviews = frame_views(old(self).frames@);
                    if old(self).debugger.enabled {
                        let newf0 = FrameView { screen: screen1, ..f2 };
                        if g.fp + 1 == pviews.len() {
                            assert(frame_views(self.frames@) == pviews.push(newf0));
                            assert(frame_views(self.frames@)[g.fp + 1] == newf0);
                            assert forall|k: int|
                                0 <= k < pviews.len() && k != g.fp && k != g.fp + 1 implies
                                frame_views(self.frames@)[k] == #[trigger] pviews[k] by {}
                            assert(frame_views(self.frames@)[g.fp] == pviews[g.fp]);
                        } else {
                            assert(frame_views(self.frames@) == pviews.update(g.fp, newf0).update(
                                g.fp + 1,
                                newf0,
                            ));
                            assert(frame_views(self.frames@)[g.fp + 1] == newf0);
                            assert forall|k: int|
                                0 <= k < pviews.len() && k != g.fp && k != g.fp + 1 implies
                                frame_views(self.frames@)[k] == #[trigger] pviews[k] by {}
                        }
                        assert((FrameView { screen: f0.screen, ..newf0 }) =~= f2);
                    } else {
                        assert(frame_views(self.frames@) == pviews.update(g.fp, f2));
                        assert(frame_views(self.frames@)[g.fp] == f2);
                        assert forall|k: int|
                            0 <= k < pviews.len() && k != g.fp implies frame_views(self.frames@)[k]
                                == #[trigger] pviews[k] by {}
                    }
                    if !(old(self).debugger.enabled && old(self).debugger.enable_break) {
                        assert(report_views(self.debugger.reports@) =~= report_views(
                            old(self).debugger.reports@,
                        ) + Seq::<ReportView>::empty());
                    }
                    assert(cycle_effect(old(self), self, delta, result));
                }
            } else {
                proof {
                    assert(gate_of(old(self)).resume == false);
                    assert(tick_fire_effect(old(self), self, delta, result));
                }
            }
        } else {
            self.tick_timer = self.tick_timer + delta;
        }

        result
    }
}

/// Whether the engine's per-instruction bounds hold for this frame and
/// instruction.
fn check_execute_preconditions(frame: &VmFrame, code: OpCode) -> (b: bool)
    requires
        frame.wf(),
    ensures
        b == execute_preconditions(frame@, code),
{
    if !(frame.PC <= 0xFFFB) {
        return false;
    }
    match code {
        OpCode::Unknown => true,
        OpCode::Raw_Call { nnn } => true,
        OpCode::Disp_Clear => true,
        OpCode::Disp { x, y, n } => x < REGISTER_COUNT && y < REGISTER_COUNT && frame.I as usize
            + 8 * (n as usize) <= MEMORY_SIZE,
        OpCode::Flow_Return => true,
        OpCode::Flow_Jump { nnn } => true,
        OpCode::Flow_Call { nnn } => true,
        OpCode::Flow_Jump_Offset { nnn } => nnn <= 0xFFF,
        OpCode::Cond_Eq_Const { x, nn } => x < REGISTER_COUNT,
        OpCode::Cond_Neq_Const { x, nn } => x < REGISTER_COUNT,
        OpCode::Cond_Eq_Reg { x, y } => x < REGISTER_COUNT && y < REGISTER_COUNT,
        OpCode::Cond_Neq_Reg { x, y } => x < REGISTER_COUNT && y < REGISTER_COUNT,
        OpCode::Const_Set_Reg { x, nn } => x < REGISTER_COUNT,
        OpCode::Const_Add_Reg { x, nn } => x < REGISTER_COUNT,
        OpCode::Assign { x, y } => x < REGISTER_COUNT && y < REGISTER_COUNT,
        OpCode::BitOp_Or { x, y } => x < REGISTER_COUNT && y < REGISTER_COUNT,
        OpCode::BitOp_And { x, y } => x < REGISTER_COUNT && y < REGISTER_COUNT,
        OpCode::BitOp_Xor { x, y } => x < REGISTER_COUNT && y < REGISTER_COUNT,
        OpCode::BitOp_Shift_Right { x, y } => x < REGISTER_COUNT && y < REGISTER_COUNT,
        OpCode::BitOp_Shift_Left { x, y } => x < REGISTER_COUNT && y < REGISTER_COUNT,
        OpCode::Math_Add { x, y } => x < REGISTER_COUNT && y < REGISTER_COUNT,
        OpCode::Math_Minus { x, y } => x < REGISTER_COUNT && y < REGISTER_COUNT,
        OpCode::Math_Minus_Reverse { x, y } => x < REGISTER_COUNT && y < REGISTER_COUNT,
        OpCode::MEM_Set_I { nnn } => true,
        OpCode::MEM_Add_I { x } => x < REGISTER_COUNT,
        OpCode::MEM_Set_Sprite_I { x } => x < REGISTER_COUNT,
        OpCode::MEM_Reg_Dump { x } => x < REGISTER_COUNT && frame.I as usize + x + 1
            <= MEMORY_SIZE,
        OpCode::MEM_Reg_Load { x } => x < REGISTER_COUNT && frame.I as usize + x + 1
            <= MEMORY_SIZE,
        OpCode::Rand { x, nn } => x < REGISTER_COUNT,
        OpCode::BCD { x } => x < REGISTER_COUNT && frame.I as usize + 3 <= MEMORY_SIZE,
        OpCode::Timer_Delay_Get { x } => x < REGISTER_COUNT,
        OpCode::Timer_Delay_Set { x } => x < REGISTER_COUNT,
        OpCode::Sound_Set { x } => x < REGISTER_COUNT,
        OpCode::KeyOp_Skip_Pressed { x } => x < REGISTER_COUNT,
        OpCode::KeyOp_Skip_Not_Pressed { x } => x < REGISTER_COUNT,
        OpCode::KeyOp_Await { x } => x < REGISTER_COUNT,
    }
}

impl Vm {
    /// Whether the next `tick` call is safe: the environment's loop tests
    /// this before each tick and treats a refusal as fatal.
    pub fn can_tick(&self, delta: u128) -> (b: bool)
        requires
            self.wf(),
        ensures
            b == tick_ready(self, delta),
    {
        if !(self.tick_timer > self.tick_duration) {
            return self.tick_timer <= u128::MAX - delta;
        }
        let ghost g = gate_of(self);
        let mut fp = self.frame_pointer;
        let mut resume = false;
        if self.debugger.enabled && self.debugger.enable_break {
            let ghost fviews = frame_views(self.frames@);
            let ghost pending0 = self.debugger.pending@;
            let n = self.debugger.pending.len();
            let mut i: usize = 0;
            while i < n
                invariant
                    i <= n,
                    n == pending0.len(),
                    self.wf(),
                    pending0 == self.debugger.pending@,
                    fviews == frame_views(self.frames@),
                    (fp as int) < self.frames@.len(),
                    ({
                        let d = drain_from(
                            fviews,
                            DrainState {
                                fp: self.frame_pointer as int,
                                resume: false,
                                reports: Seq::empty(),
                            },
                            pending0.subrange(0, i as int),
                        );
                        fp as int == d.fp && resume == d.resume
                    }),
                decreases n - i,
            {
                let ghost d_pre = drain_from(
                    fviews,
                    DrainState {
                        fp: self.frame_pointer as int,
                        resume: false,
                        reports: Seq::empty(),
                    },
                    pending0.subrange(0, i as int),
                );
                match self.debugger.pending[i] {
                    DebuggerCommand::Next => {
                        if fp < self.frames.len() - 1 {
                            fp = fp + 1;
                        } else {
                            resume = true;
                        }
                    },
                    DebuggerCommand::Previous => {
                        if fp > 0 {
                            fp = fp - 1;
                        }
                    },
                    DebuggerCommand::PrintRegisters => {},
                    DebuggerCommand::PrintStack => {},
                    DebuggerCommand::PrintTimers => {},
                }
                proof {
                    assert(pending0.subrange(0, i + 1 as int) =~= pending0.subrange(
                        0,
                        i as int,
                    ).push(pending0[i as int]));
                    lemma_drain_snoc(
                        fviews,
                        DrainState {
                            fp: self.frame_pointer as int,
                            resume: false,
                            reports: Seq::empty(),
                        },
                        pending0.subrange(0, i as int),
                        pending0[i as int],
                    );
                }
                i = i + 1;
            }
            proof {
                assert(pending0.subrange(0, n as int) =~= pending0);
                assert(fp as int == g.fp && resume == g.resume);
            }
        } else {
            resume = true;
        }
        if !resume {
            return true;
        }
        let frame = &self.frames[fp];
        proof {
            assert(frame@ == frame_views(self.frames@)[g.fp]);
        }
        if !(frame.PC as usize + 2 <= MEMORY_SIZE) {
            return false;
        }
        let code = decode(fetch(frame));
        check_execute_preconditions(frame, code)
    }

    /// The framebuffer as an immutable snapshot for the environment.
    pub fn get_display_snapshot(&self) -> (s: Snapshot)
        requires
            self.wf(),
        ensures
            s.wf(),
            s.screen() == self.display.screen(),
    {
        self.display.get_snapshot()
    }

    /// Whether a tone is currently requested.
    pub fn is_playing_sound(&self) -> (r: bool)
        ensures
            r == self.audio.playing,
    {
        self.audio.is_playing()
    }

    /// Flip the debugger's break flag.
    pub fn toggle_debugger_break(&mut self)
        ensures
            final(self).debugger.enable_break == !old(self).debugger.enable_break,
            final(self).debugger.enabled == old(self).debugger.enabled,
            final(self).debugger.pending == old(self).debugger.pending,
            final(self).debugger.reports == old(self).debugger.reports,
            final(self).frames == old(self).frames,
            final(self).frame_pointer == old(self).frame_pointer,
            final(self).display == old(self).display,
            final(self).audio == old(self).audio,
            final(self).input == old(self).input,
            final(self).tick_timer == old(self).tick_timer,
            final(self).tick_duration == old(self).tick_duration,
    {
        let cur = self.debugger.enable_break;
        self.debugger.set_break(!cur);
    }

    /// Queue one debugger command for the machine to drain while broken.
    pub fn send_debugger_command(&mut self, command: DebuggerCommand)
        ensures
            final(self).debugger.pending@ == old(self).debugger.pending@.push(command),
            final(self).debugger.enabled == old(self).debugger.enabled,
            final(self).debugger.enable_break == old(self).debugger.enable_break,
            final(self).debugger.reports == old(self).debugger.reports,
            final(self).frames == old(self).frames,
            final(self).frame_pointer == old(self).frame_pointer,
            final(self).display == old(self).display,
            final(self).audio == old(self).audio,
            final(self).input == old(self).input,
            final(self).tick_timer == old(self).tick_timer,
            final(self).tick_duration == old(self).tick_duration,
    {
        self.debugger.send_command(command);
    }

    /// Collect the debugger's gathered diagnostics.
    pub fn take_debug_reports(&mut self) -> (r: Vec<DebugReport>)
        ensures
            r == old(self).debugger.reports,
            final(self).debugger.reports@ == Seq::<DebugReport>::empty(),
            final(self).debugger.enabled == old(self).debugger.enabled,
            final(self).debugger.enable_break == old(self).debugger.enable_break,
            final(self).debugger.pending == old(self).debugger.pending,
            final(self).frames == old(self).frames,
            final(self).frame_pointer == old(self).frame_pointer,
            final(self).display == old(self).display,
            final(self).audio == old(self).audio,
            final(self).input == old(self).input,
            final(self).tick_timer == old(self).tick_timer,
            final(self).tick_duration == old(self).tick_duration,
    {
        self.debugger.take_reports()
    }

    /// Replace the held-key list with what the environment reports now.
    pub fn set_input_keys(&mut self, keys: Vec<u8>)
        ensures
            final(self).input.keys() == keys@,
            final(self).debugger == old(self).debugger,
            final(self).frames == old(self).frames,
            final(self).frame_pointer == old(self).frame_pointer,
            final(self).display == old(self).display,
            final(self).audio == old(self).audio,
            final(self).tick_timer == old(self).tick_timer,
            final(self).tick_duration == old(self).tick_duration,
    {
        self.input.set_keys(keys);
    }
}

// ---------------------------------------------------------------------------
// Laws relating the instruction semantics.
// ---------------------------------------------------------------------------

/// Law: dumping registers 0 through `x` to memory and loading the same
/// region back into freshly zeroed registers reproduces the original
/// values in registers 0 through `x` and leaves the rest zero. That both
/// operations advance the index register by exactly `x + 1` is stated by
/// the register-dump and register-load cases of `frame_effect`.
pub proof fn lemma_register_dump_load_round_trip(regs: Seq<u8>, mem: Seq<u8>, i0: int, x: int)
    requires
        regs.len() == REGISTER_COUNT,
        mem.len() == MEMORY_SIZE,
        0 <= x < REGISTER_COUNT,
        0 <= i0,
        i0 + x + 1 <= MEMORY_SIZE,
    ensures
        forall|k: int|
            0 <= k <= x ==> #[trigger] loaded_regs(
                zero_regs(),
                dumped_mem(mem, regs, i0, x + 1),
                i0,
                x + 1,
            )[k] == regs[k],
        forall|k: int|
            x < k < REGISTER_COUNT ==> #[trigger] loaded_regs(
                zero_regs(),
                dumped_mem(mem, regs, i0, x + 1),
                i0,
                x + 1,
            )[k] == 0u8,
{
}

/// Law: with debugging enabled and no stepping, every executed cycle
/// appends one frame to history and advances the cursor (the recording
/// half of `tick`'s contract), so after `n` cycles from the initial
/// single-frame history the cursor is `n` and the history holds `n + 1`
/// frames. `fps` and `lens` are the cursor and history length after each
/// cycle; the hypothesis is exactly what `tick` ensures of one executed
/// cycle.
pub proof fn lemma_history_growth(fps: Seq<int>, lens: Seq<int>, n: int)
    requires
        fps.len() == lens.len(),
        fps.len() >= 1,
        fps[0] == 0,
        lens[0] == 1,
        forall|j: int|
            0 <= j < fps.len() - 1 ==> (#[trigger] fps[j + 1]) == fps[j] + 1 && lens[j + 1] == (
            if fps[j] + 1 == lens[j] {
                lens[j] + 1
            } else {
                lens[j]
            }),
        0 <= n < fps.len(),
    ensures
        fps[n] == n,
        lens[n] == n + 1,
    decreases n,
{
    if n > 0 {
        lemma_history_growth(fps, lens, n - 1);
        assert(fps[(n - 1) + 1] == fps[n - 1] + 1);
    }
}

} // verus!
