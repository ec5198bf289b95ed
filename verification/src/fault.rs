//! The ways a run ends: none of them is recovered from.

use vstd::prelude::*;

verus! {

/// Address at which programs are loaded and start.
pub const LOAD_BASE: u16 = 0x200;

/// A fatal error of one execution step. `at` is the address of the
/// instruction that the step was to execute.
#[derive(Clone, Copy, Debug, PartialEq, Eq, Structural)]
pub enum Fault {
    /// The bytes at `at` are a machine-subroutine call or name no operation.
    Unsupported { at: u16 },
    /// The instruction at `at`, or the fetch of it, reached for a byte outside
    /// the address space or moved the stack pointer out of it.
    OutOfRange { at: u16 },
}

impl Fault {
    /// The address of the faulting instruction.
    pub open spec fn address(self) -> u16 {
        match self {
            Fault::Unsupported { at } => at,
            Fault::OutOfRange { at } => at,
        }
    }

    /// How far the faulting instruction lies from the load base; negative for
    /// an instruction below it.
    pub fn offset(&self) -> (d: i32)
        ensures
            d == self.address() - LOAD_BASE,
    {
        let at: u16 = match self {
            Fault::Unsupported { at } => *at,
            Fault::OutOfRange { at } => *at,
        };
        at as i32 - LOAD_BASE as i32
    }
}

/// A program that does not fit between the load base and the end of the
/// address space; `len` is its length in bytes.
#[derive(Clone, Copy, Debug, PartialEq, Eq, Structural)]
pub struct RomTooLarge {
    pub len: usize,
}

} // verus!
