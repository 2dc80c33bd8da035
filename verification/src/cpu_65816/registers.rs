//! 65816 register model.
use vstd::prelude::*;

verus! {

/// 65816 register file.
#[derive(Debug, Clone, Copy, PartialEq, Eq, Structural)]
pub struct Registers {
    /// Accumulator.
    pub a: u16,
    /// Index X.
    pub x: u16,
    /// Index Y.
    pub y: u16,
    /// Stack pointer.
    pub s: u16,
    /// Direct page register.
    pub d: u16,
    /// Program counter.
    pub pc: u16,
    /// Program bank.
    pub pbr: u8,
    /// Data bank.
    pub dbr: u8,
    /// Processor status.
    pub p: u8,
    /// Emulation mode flag.
    pub emulation: bool,
}

/// The all-zero register file.
pub open spec fn zero_registers() -> Registers {
    Registers { a: 0, x: 0, y: 0, s: 0, d: 0, pc: 0, pbr: 0, dbr: 0, p: 0, emulation: false }
}

impl Default for Registers {
    fn default() -> (r: Self)
        ensures
            r == zero_registers(),
    {
        Registers { a: 0, x: 0, y: 0, s: 0, d: 0, pc: 0, pbr: 0, dbr: 0, p: 0, emulation: false }
    }
}

} // verus!
