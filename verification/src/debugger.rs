//! The time-travel debugger's state: whether it is enabled, whether the
//! machine is broken, the queue of pending operator commands, and the
//! diagnostic reports produced while draining them.
//!
//! The break flag and the command queue are fed by the environment between
//! cycles; only the machine drains the queue, so command order is kept.

use vstd::prelude::*;

use crate::opcodes::OpCode;

verus! {

/// Commands an operator can send to a broken machine.
#[derive(Debug, Clone, Copy, PartialEq, Eq, Structural)]
pub enum DebuggerCommand {
    /// Step into an already-recorded future frame, or resume live
    /// execution when none exists.
    Next,
    /// Step back one frame; a no-op at the start of history.
    Previous,
    /// Dump the registers of the frame at the cursor.
    PrintRegisters,
    /// Dump the call stack of the frame at the cursor.
    PrintStack,
    /// Dump both timers of the frame at the cursor.
    PrintTimers,
}

/// A diagnostic produced while draining commands; the environment decides
/// how to present it.
#[derive(Debug)]
pub enum DebugReport {
    /// The cursor moved to a recorded frame; `opcode` is the instruction
    /// that frame is about to execute, where its program counter is valid.
    Stepped { command: DebuggerCommand, opcode: Option<OpCode> },
    /// The registers, program counter and index register at the cursor.
    Registers { registers: Vec<u8>, pc: u16, i: u16 },
    /// The saved return addresses at the cursor, innermost last.
    Stack { return_addresses: Vec<u16> },
    /// Both timers at the cursor, scaled and raw.
    Timers { delay_scaled: u8, delay_raw: u128, sound_scaled: u8, sound_raw: u128 },
}

/// The mathematical value of a report.
#[verifier::ext_equal]
pub ghost enum ReportView {
    Stepped { command: DebuggerCommand, opcode: Option<OpCode> },
    Registers { registers: Seq<u8>, pc: u16, i: u16 },
    Stack { return_addresses: Seq<u16> },
    Timers { delay_scaled: u8, delay_raw: u128, sound_scaled: u8, sound_raw: u128 },
}

impl View for DebugReport {
    type V = ReportView;

    open spec fn view(&self) -> ReportView {
        match self {
            DebugReport::Stepped { command, opcode } => ReportView::Stepped {
                command: *command,
                opcode: *opcode,
            },
            DebugReport::Registers { registers, pc, i } => ReportView::Registers {
                registers: registers@,
                pc: *pc,
                i: *i,
            },
            DebugReport::Stack { return_addresses } => ReportView::Stack {
                return_addresses: return_addresses@,
            },
            DebugReport::Timers { delay_scaled, delay_raw, sound_scaled, sound_raw } => {
                ReportView::Timers {
                    delay_scaled: *delay_scaled,
                    delay_raw: *delay_raw,
                    sound_scaled: *sound_scaled,
                    sound_raw: *sound_raw,
                }
            },
        }
    }
}

/// The views of a sequence of reports.
pub open spec fn report_views(reports: Seq<DebugReport>) -> Seq<ReportView> {
    reports.map_values(|r: DebugReport| r@)
}

/// Debugger session state owned by the machine.
pub struct Debugger {
    /// Fixed at machine creation: whether history is recorded and the
    /// break flag is honoured.
    pub enabled: bool,
    /// Level-triggered break flag, toggled by the environment at any time.
    pub enable_break: bool,
    /// Operator commands not yet drained, oldest first.
    pub pending: Vec<DebuggerCommand>,
    /// Diagnostics not yet collected by the environment, oldest first.
    pub reports: Vec<DebugReport>,
}

impl Debugger {
    /// A fresh session: not broken, nothing queued.
    pub fn new(enabled: bool) -> (d: Debugger)
        ensures
            d.enabled == enabled,
            !d.enable_break,
            d.pending@ == Seq::<DebuggerCommand>::empty(),
            d.reports@ == Seq::<DebugReport>::empty(),
    {
        Debugger {
            enabled,
            enable_break: false,
            pending: Vec::new(),
            reports: Vec::new(),
        }
    }

    /// Queue one operator command.
    pub fn send_command(&mut self, command: DebuggerCommand)
        ensures
            final(self).pending@ == old(self).pending@.push(command),
            final(self).enabled == old(self).enabled,
            final(self).enable_break == old(self).enable_break,
            final(self).reports == old(self).reports,
    {
        self.pending.push(command);
    }

    /// Set or clear the break flag.
    pub fn set_break(&mut self, on: bool)
        ensures
            final(self).enable_break == on,
            final(self).enabled == old(self).enabled,
            final(self).pending == old(self).pending,
            final(self).reports == old(self).reports,
    {
        self.enable_break = on;
    }

    /// Hand out the reports gathered so far and forget them.
    pub fn take_reports(&mut self) -> (r: Vec<DebugReport>)
        ensures
            r == old(self).reports,
            final(self).reports@ == Seq::<DebugReport>::empty(),
            final(self).enabled == old(self).enabled,
            final(self).enable_break == old(self).enable_break,
            final(self).pending == old(self).pending,
    {
        let mut taken: Vec<DebugReport> = Vec::new();
        core::mem::swap(&mut taken, &mut self.reports);
        taken
    }
}

} // verus!
