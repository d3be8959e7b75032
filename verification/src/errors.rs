//! Failures the machine can report: construction-fatal ROM validation
//! errors and the execution-fatal empty-stack return.

use vstd::prelude::*;

verus! {

/// Failures of machine construction and execution.
#[derive(Debug, Clone, Copy, PartialEq, Eq, Structural)]
pub enum Errors {
    /// The program image holds no bytes.
    RomEmpty,
    /// The program image does not fit the loadable memory region.
    RomTooBig { size: usize, max: usize },
    /// A return was executed while the call stack held no frame.
    StackEmpty,
}

} // verus!
