//! SPC700 core state.
use vstd::prelude::*;

use crate::bus::{read_event, AccessKind, BusEvent};
use crate::error::{Error, Result};

verus! {

/// SPC700 register file as seen by specifications.
#[derive(Debug, Clone, Copy, PartialEq, Eq, Structural)]
pub struct Spc700Regs {
    /// Program counter.
    pub pc: u16,
    /// Accumulator.
    pub a: u8,
    /// X register.
    pub x: u8,
    /// Y register.
    pub y: u8,
    /// Stack pointer.
    pub sp: u8,
    /// Status register.
    pub psw: u8,
    /// Elapsed step count.
    pub cycles: u64,
}

/// Minimal SPC700 state.
#[derive(Debug, Clone, PartialEq, Eq)]
pub struct Spc700 {
    /// Program counter.
    pub pc: u16,
    /// Accumulator.
    pub a: u8,
    /// X register.
    pub x: u8,
    /// Y register.
    pub y: u8,
    /// Stack pointer.
    pub sp: u8,
    /// Status register.
    pub psw: u8,
    cycles: u64,
}

/// The register file after reset.
pub open spec fn reset_spc700_regs() -> Spc700Regs {
    Spc700Regs { pc: 0, a: 0, x: 0, y: 0, sp: 0, psw: 0, cycles: 0 }
}

/// Registers after one step: the program counter advances (wrapping) and the step count grows
/// (saturating).
pub open spec fn stepped(r: Spc700Regs) -> Spc700Regs {
    Spc700Regs {
        pc: ((r.pc + 1) % 0x10000) as u16,
        cycles: if r.cycles == u64::MAX { u64::MAX } else { (r.cycles + 1) as u64 },
        ..r
    }
}

/// Size of the SPC700 address space.
pub const SPC_MEMORY_LEN: usize = 0x10000;

/// The SPC700 address space as 64 KiB of bytes.
pub struct SpcMemory {
    bytes: Vec<u8>,
}

impl View for SpcMemory {
    type V = Seq<u8>;

    closed spec fn view(&self) -> Seq<u8> {
        self.bytes@
    }
}

/// 64 KiB of zero bytes.
pub open spec fn zero_memory() -> Seq<u8> {
    Seq::new(SPC_MEMORY_LEN as nat, |i: int| 0u8)
}

/// Registers after `k` cycles of one instruction: the program counter advances by one
/// (wrapping) and the cycle count grows by `k` (saturating).
pub open spec fn stepped_by(r: Spc700Regs, k: u64) -> Spc700Regs {
    Spc700Regs {
        pc: ((r.pc + 1) % 0x10000) as u16,
        cycles: if r.cycles + k > u64::MAX { u64::MAX } else { (r.cycles + k) as u64 },
        ..r
    }
}

impl SpcMemory {
    #[verifier::type_invariant]
    closed spec fn full(&self) -> bool {
        self.bytes@.len() == SPC_MEMORY_LEN
    }

    /// All-zero memory.
    pub fn new() -> (m: Self)
        ensures
            m@ == zero_memory(),
    {
        let bytes: Vec<u8> = vec![0u8; SPC_MEMORY_LEN];
        assert(bytes@ =~= zero_memory());
        SpcMemory { bytes }
    }

    /// The byte at `address`.
    pub fn read(&self, address: u16) -> (v: u8)
        ensures
            v == self@[address as int],
    {
        proof { use_type_invariant(self); }
        self.bytes[address as usize]
    }

    /// Store `value` at `address`.
    pub fn write(&mut self, address: u16, value: u8)
        ensures
            final(self)@ == old(self)@.update(address as int, value),
    {
        proof { use_type_invariant(&*self); }
        self.bytes[address as usize] = value;
    }
}

impl Default for Spc700 {
    fn default() -> (s: Self)
        ensures
            s.regs() == reset_spc700_regs(),
    {
        Spc700 { pc: 0, a: 0, x: 0, y: 0, sp: 0, psw: 0, cycles: 0 }
    }
}

impl Spc700 {
    /// The registers and step count.
    pub closed spec fn regs(&self) -> Spc700Regs {
        Spc700Regs {
            pc: self.pc,
            a: self.a,
            x: self.x,
            y: self.y,
            sp: self.sp,
            psw: self.psw,
            cycles: self.cycles,
        }
    }

    /// Reset to the power-on state.
    pub fn reset(&mut self)
        ensures
            final(self).regs() == reset_spc700_regs(),
    {
        *self = Spc700::default();
    }

    /// Execute one step.
    pub fn step(&mut self)
        ensures
            final(self).regs() == stepped(old(self).regs()),
    {
        self.pc = self.pc.wrapping_add(1);
        self.cycles = self.cycles.saturating_add(1);
    }

    /// Load a register snapshot and reset cycle accounting for compliance work.
    pub fn load_state(&mut self, pc: u16, a: u8, x: u8, y: u8, sp: u8, psw: u8)
        ensures
            final(self).regs() == (Spc700Regs { pc, a, x, y, sp, psw, cycles: 0 }),
    {
        self.pc = pc;
        self.a = a;
        self.x = x;
        self.y = y;
        self.sp = sp;
        self.psw = psw;
        self.cycles = 0;
    }

    /// Execute one instruction against `memory` and return its bus trace.
    ///
    /// The core executes `NOP` (opcode `0x00`): an opcode fetch followed by a dummy read of the
    /// next byte, two cycles in all. Any other opcode is refused and leaves the state unchanged.
    pub fn step_with_memory(&mut self, memory: &mut SpcMemory) -> (r: Result<Vec<BusEvent>>)
        ensures
            final(memory)@ == old(memory)@,
            old(memory)@[old(self).regs().pc as int] != 0 ==> {
                &&& final(self).regs() == old(self).regs()
                &&& r matches Err(e) && e is UnsupportedOpcode && e->UnsupportedOpcode_cpu@ == "SPC700"@
                    && e->opcode == old(memory)@[old(self).regs().pc as int]
                    && e->address == old(self).regs().pc as u32
            },
            old(memory)@[old(self).regs().pc as int] == 0 ==> {
                let pc = old(self).regs().pc;
                let next = ((pc + 1) % 0x10000) as u16;
                &&& final(self).regs() == stepped_by(old(self).regs(), 2)
                &&& r matches Ok(trace) && trace@ == seq![
                    read_event(pc as u32, 0, 0),
                    read_event(next as u32, old(memory)@[next as int], 1),
                ]
            },
    {
        let pc = self.pc;
        let opcode = memory.read(pc);
        if opcode != 0 {
            return Err(Error::UnsupportedOpcode { cpu: "SPC700".to_owned(), opcode, address: pc as u32 });
        }
        let next = pc.wrapping_add(1);
        let operand = memory.read(next);
        let mut trace: Vec<BusEvent> = Vec::new();
        trace.push(BusEvent { address: pc as u32, value: opcode, access: AccessKind::Read, cycle: 0 });
        trace.push(BusEvent { address: next as u32, value: operand, access: AccessKind::Read, cycle: 1 });
        self.pc = next;
        self.cycles = self.cycles.saturating_add(2);
        assert(trace@ =~= seq![
            read_event(pc as u32, 0, 0),
            read_event(next as u32, old(memory)@[next as int], 1),
        ]);
        Ok(trace)
    }

    /// The registers and cycle count.
    pub fn registers(&self) -> (r: Spc700Regs)
        ensures
            r == self.regs(),
    {
        Spc700Regs { pc: self.pc, a: self.a, x: self.x, y: self.y, sp: self.sp, psw: self.psw, cycles: self.cycles }
    }

    /// Program counter.
    pub fn pc(&self) -> (pc: u16)
        ensures
            pc == self.regs().pc,
    {
        self.pc
    }

    /// Elapsed step count.
    pub fn cycles(&self) -> (c: u64)
        ensures
            c == self.regs().cycles,
    {
        self.cycles
    }
}

} // verus!
