//! SA-1 subsystem model: MMIO registers, shared RAM and deterministic boot signaling.
use vstd::prelude::*;

use crate::cartridge::{Cartridge, Mapper};

verus! {

/// Scalar registers of the SA-1.
#[derive(Debug, Clone, Copy, PartialEq, Eq, Structural)]
pub struct Sa1Regs {
    /// Control register (`$2200`).
    pub control: u8,
    /// Status register.
    pub status: u8,
    /// Reset vector.
    pub reset_vector: u16,
    /// IRQ vector.
    pub irq_vector: u16,
    /// Boot timer reload value.
    pub timer_reload: u16,
    /// Boot timer counter.
    pub timer_counter: u16,
    /// IRQ enable mask.
    pub irq_enable: u8,
    /// Pending IRQ bits.
    pub irq_pending: u8,
    /// Message from the main CPU.
    pub cpu_message: u8,
    /// Message from the SA-1.
    pub sa1_message: u8,
    /// Token derived at boot.
    pub boot_token: u8,
    /// SA-1 program counter.
    pub pc: u16,
    /// Master cycles accumulated while running.
    pub accumulated_cycles: u64,
}

/// Abstract state of the SA-1.
pub struct Sa1View {
    /// Scalar registers.
    pub regs: Sa1Regs,
    /// 2 KiB internal RAM.
    pub iram: Seq<u8>,
    /// 8 KiB battery-backed RAM.
    pub bwram: Seq<u8>,
}

/// A location of the SA-1 windows.
#[derive(Debug, Clone, Copy, PartialEq, Eq, Structural)]
pub enum Sa1Target {
    /// MMIO register `$2200 + offset`.
    Mmio(u16),
    /// Internal RAM byte.
    Iram(usize),
    /// Battery-backed RAM byte.
    Bwram(usize),
}

/// Location a CPU address selects: LoROM banks `$00-$3F` map MMIO at `$2200-$23FF` and internal
/// RAM at `$3000-$37FF`; banks `$40-$43` map the battery-backed RAM, mirrored every 8 KiB.
pub open spec fn spec_decode_sa1(mapper: Mapper, address: u32) -> Option<Sa1Target> {
    let bank = (address as int / 0x10000) % 0x80;
    let offset = address as int % 0x10000;
    if mapper != Mapper::LoRom {
        None
    } else if bank <= 0x3F {
        if 0x2200 <= offset <= 0x23FF {
            Some(Sa1Target::Mmio((offset - 0x2200) as u16))
        } else if 0x3000 <= offset <= 0x37FF {
            Some(Sa1Target::Iram((offset - 0x3000) as usize))
        } else {
            None
        }
    } else if 0x40 <= bank <= 0x43 {
        Some(Sa1Target::Bwram((((bank - 0x40) * 0x10000 + offset) % 0x2000) as usize))
    } else {
        None
    }
}

/// What a CPU read of `address` gives from the SA-1 windows, if they decode it.
pub open spec fn sa1_read(v: Sa1View, mapper: Mapper, address: u32) -> Option<u8> {
    match spec_decode_sa1(mapper, address) {
        Some(Sa1Target::Mmio(o)) => Some(spec_sa1_mmio_read(v.regs, o)),
        Some(Sa1Target::Iram(i)) => Some(v.iram[i as int]),
        Some(Sa1Target::Bwram(i)) => Some(v.bwram[i as int]),
        None => None::<u8>,
    }
}

/// The SA-1 after a CPU write of `value` to `address`.
pub open spec fn sa1_written(v: Sa1View, mapper: Mapper, address: u32, value: u8) -> Sa1View {
    match spec_decode_sa1(mapper, address) {
        Some(Sa1Target::Mmio(o)) => Sa1View { regs: spec_sa1_mmio_write(v.regs, o, value), ..v },
        Some(Sa1Target::Iram(i)) => Sa1View { iram: v.iram.update(i as int, value), ..v },
        Some(Sa1Target::Bwram(i)) => Sa1View { bwram: v.bwram.update(i as int, value), ..v },
        None => v,
    }
}

/// A byte written to the SA-1's shared memory (I-RAM at `$3000-$37FF` of banks `$00-$3F`,
/// BW-RAM in banks `$40-$43`) reads back; with the HiROM mapping the windows decode nothing.
pub proof fn lemma_sa1_memory_roundtrip(v: Sa1View, mapper: Mapper, address: u32, value: u8)
    requires
        v.iram.len() == 0x800,
        v.bwram.len() == 0x2000,
    ensures
        mapper == Mapper::LoRom && ({
            let bank = (address as int / 0x10000) % 0x80;
            let offset = address as int % 0x10000;
            (bank <= 0x3F && 0x3000 <= offset <= 0x37FF) || 0x40 <= bank <= 0x43
        }) ==> sa1_read(sa1_written(v, mapper, address, value), mapper, address) == Some(value),
        mapper == Mapper::HiRom ==> spec_decode_sa1(mapper, address) is None,
{
}

/// `max(v, 1)`.
pub open spec fn at_least_one(v: u16) -> u16 {
    if v < 1 { 1 } else { v }
}

/// Value of MMIO register `offset`.
pub open spec fn spec_sa1_mmio_read(r: Sa1Regs, offset: u16) -> u8 {
    if offset == 0x00 {
        r.control
    } else if offset == 0x01 {
        r.status
    } else if offset == 0x02 {
        r.reset_vector as u8
    } else if offset == 0x03 {
        (r.reset_vector / 256) as u8
    } else if offset == 0x04 {
        r.irq_vector as u8
    } else if offset == 0x05 {
        (r.irq_vector / 256) as u8
    } else if offset == 0x06 {
        r.timer_reload as u8
    } else if offset == 0x07 {
        (r.timer_reload / 256) as u8
    } else if offset == 0x08 {
        r.cpu_message
    } else if offset == 0x09 {
        r.sa1_message
    } else if offset == 0x0A {
        r.irq_enable
    } else if offset == 0x0B {
        r.irq_pending
    } else if offset == 0x0C {
        r.pc as u8
    } else if offset == 0x0D {
        (r.pc / 256) as u8
    } else if offset == 0x0E {
        r.boot_token
    } else if offset == 0x0F {
        r.timer_counter as u8
    } else {
        0
    }
}

/// Replace the low byte of a word.
pub open spec fn low_set(word: u16, value: u8) -> u16 {
    ((word as int / 256) * 256 + value as int) as u16
}

/// Replace the high byte of a word.
pub open spec fn high_set(word: u16, value: u8) -> u16 {
    ((word as int % 256) + 256 * value as int) as u16
}

/// Registers after a write of MMIO register `offset`.
pub open spec fn spec_sa1_mmio_write(r: Sa1Regs, offset: u16, value: u8) -> Sa1Regs {
    if offset == 0x00 {
        let restarted = if value & 1 != 0 {
            Sa1Regs {
                control: value,
                status: 0,
                irq_pending: 0,
                pc: r.reset_vector,
                timer_counter: at_least_one(r.timer_reload),
                boot_token: 0,
                ..r
            }
        } else {
            Sa1Regs { control: value, ..r }
        };
        if value & 0x80 != 0 { Sa1Regs { status: restarted.status | 1, ..restarted } } else { restarted }
    } else if offset == 0x02 {
        Sa1Regs { reset_vector: low_set(r.reset_vector, value), ..r }
    } else if offset == 0x03 {
        Sa1Regs { reset_vector: high_set(r.reset_vector, value), ..r }
    } else if offset == 0x04 {
        Sa1Regs { irq_vector: low_set(r.irq_vector, value), ..r }
    } else if offset == 0x05 {
        Sa1Regs { irq_vector: high_set(r.irq_vector, value), ..r }
    } else if offset == 0x06 {
        let reload = low_set(r.timer_reload, value);
        Sa1Regs { timer_reload: reload, timer_counter: at_least_one(reload), ..r }
    } else if offset == 0x07 {
        let reload = high_set(r.timer_reload, value);
        Sa1Regs { timer_reload: reload, timer_counter: at_least_one(reload), ..r }
    } else if offset == 0x08 {
        Sa1Regs { cpu_message: value, ..r }
    } else if offset == 0x0A {
        Sa1Regs { irq_enable: value, ..r }
    } else if offset == 0x0B {
        let pending = r.irq_pending & !value;
        Sa1Regs { irq_pending: pending, status: if pending == 0 { r.status & !0x40u8 } else { r.status }, ..r }
    } else {
        r
    }
}

/// Registers after `clocks` master cycles: a running SA-1 finishes booting once the accumulated
/// cycles reach the timer count, reporting a message, a token and (when enabled) an IRQ.
pub open spec fn spec_sa1_step(r: Sa1Regs, clocks: u64) -> Sa1Regs {
    if r.status & 1 == 0 {
        r
    } else {
        let acc: u64 = if r.accumulated_cycles as int + clocks as int > u64::MAX {
            u64::MAX
        } else {
            (r.accumulated_cycles + clocks) as u64
        };
        let countdown = at_least_one(r.timer_counter);
        if acc < countdown {
            Sa1Regs { accumulated_cycles: acc, ..r }
        } else {
            let booted = Sa1Regs {
                accumulated_cycles: (acc - countdown) as u64,
                status: (r.status & !1u8) | 0x80u8,
                pc: r.reset_vector,
                sa1_message: ((r.cpu_message as int + 0x33) % 256) as u8,
                boot_token: r.cpu_message ^ 0xA5u8 ^ (r.reset_vector as u8),
                timer_counter: at_least_one(r.timer_reload),
                ..r
            };
            if r.irq_enable & 1 != 0 {
                Sa1Regs { irq_pending: booted.irq_pending | 1, status: booted.status | 0x40u8, ..booted }
            } else {
                booted
            }
        }
    }
}

/// Registers of an SA-1 whose cartridge reset vector is `vector`.
pub open spec fn initial_sa1_regs(vector: u16) -> Sa1Regs {
    Sa1Regs {
        control: 0,
        status: 0,
        reset_vector: vector,
        irq_vector: vector,
        timer_reload: 32,
        timer_counter: 32,
        irq_enable: 0,
        irq_pending: 0,
        cpu_message: 0,
        sa1_message: 0,
        boot_token: 0,
        pc: vector,
        accumulated_cycles: 0,
    }
}

/// SA-1 subsystem model.
#[derive(Debug, Clone)]
pub struct Sa1Coprocessor {
    regs: Sa1Regs,
    iram: Vec<u8>,
    bwram: Vec<u8>,
}

impl View for Sa1Coprocessor {
    type V = Sa1View;

    closed spec fn view(&self) -> Sa1View {
        Sa1View { regs: self.regs, iram: self.iram@, bwram: self.bwram@ }
    }
}

fn decode_sa1(mapper: Mapper, address: u32) -> (r: Option<Sa1Target>)
    ensures
        r == spec_decode_sa1(mapper, address),
        r matches Some(Sa1Target::Iram(i)) ==> i < 0x800,
        r matches Some(Sa1Target::Bwram(i)) ==> i < 0x2000,
{
    if mapper != Mapper::LoRom {
        return None;
    }
    let bank = (address / 0x10000) % 0x80;
    let offset = address % 0x10000;
    if bank <= 0x3F {
        if 0x2200 <= offset && offset <= 0x23FF {
            Some(Sa1Target::Mmio((offset - 0x2200) as u16))
        } else if 0x3000 <= offset && offset <= 0x37FF {
            Some(Sa1Target::Iram((offset - 0x3000) as usize))
        } else {
            None
        }
    } else if 0x40 <= bank && bank <= 0x43 {
        Some(Sa1Target::Bwram((((bank - 0x40) * 0x10000 + offset) % 0x2000) as usize))
    } else {
        None
    }
}

fn max_one(v: u16) -> (r: u16)
    ensures
        r == at_least_one(v),
{
    if v < 1 { 1 } else { v }
}

impl Sa1Coprocessor {
    /// The RAMs have their sizes.
    pub open spec fn wf(&self) -> bool {
        self@.iram.len() == 0x800 && self@.bwram.len() == 0x2000
    }

    /// Build the SA-1 for a cartridge: it starts from the cartridge reset vector (`$8000` when
    /// the mapping does not expose one).
    pub fn new(cartridge: &Cartridge) -> (s: Self)
        ensures
            s@.regs == initial_sa1_regs(
                match cartridge.spec_read_byte(0x00FFFC) {
                    Some(lo) => match cartridge.spec_read_byte(0x00FFFD) {
                        Some(hi) => ((lo as u16) | ((hi as u16) << 8u16)),
                        None => 0x8000u16,
                    },
                    None => 0x8000u16,
                },
            ),
            s@.iram == Seq::new(0x800, |i: int| 0u8),
            s@.bwram == Seq::new(0x2000, |i: int| 0u8),
            s.wf(),
    {
        let reset_vector = match cartridge.reset_vector() {
            Some(v) => v,
            None => 0x8000,
        };
        let s = Sa1Coprocessor {
            regs: Sa1Regs {
                control: 0,
                status: 0,
                reset_vector,
                irq_vector: reset_vector,
                timer_reload: 32,
                timer_counter: 32,
                irq_enable: 0,
                irq_pending: 0,
                cpu_message: 0,
                sa1_message: 0,
                boot_token: 0,
                pc: reset_vector,
                accumulated_cycles: 0,
            },
            iram: vec![0u8; 0x800],
            bwram: vec![0u8; 0x2000],
        };
        assert(s.iram@ =~= Seq::new(0x800, |i: int| 0u8));
        assert(s.bwram@ =~= Seq::new(0x2000, |i: int| 0u8));
        s
    }

    /// Clear transient state, keeping the vectors and timer reload.
    pub fn reset(&mut self)
        ensures
            final(self)@.regs == (Sa1Regs {
                control: 0,
                status: 0,
                timer_counter: at_least_one(old(self)@.regs.timer_reload),
                irq_pending: 0,
                cpu_message: 0,
                sa1_message: 0,
                boot_token: 0,
                pc: old(self)@.regs.reset_vector,
                accumulated_cycles: 0,
                ..old(self)@.regs
            }),
            final(self)@.iram == Seq::new(0x800, |i: int| 0u8),
            final(self)@.bwram == Seq::new(0x2000, |i: int| 0u8),
            final(self).wf(),
    {
        self.regs.control = 0;
        self.regs.status = 0;
        self.regs.timer_counter = max_one(self.regs.timer_reload);
        self.regs.irq_pending = 0;
        self.regs.cpu_message = 0;
        self.regs.sa1_message = 0;
        self.regs.boot_token = 0;
        self.regs.pc = self.regs.reset_vector;
        self.regs.accumulated_cycles = 0;
        self.iram = vec![0u8; 0x800];
        self.bwram = vec![0u8; 0x2000];
        assert(self.iram@ =~= Seq::new(0x800, |i: int| 0u8));
        assert(self.bwram@ =~= Seq::new(0x2000, |i: int| 0u8));
    }

    /// Service a CPU read of the SA-1 windows.
    pub fn read(&mut self, mapper: Mapper, address: u32) -> (r: Option<u8>)
        requires
            old(self).wf(),
        ensures
            final(self)@ == old(self)@,
            r == sa1_read(old(self)@, mapper, address),
    {
        match decode_sa1(mapper, address) {
            Some(Sa1Target::Mmio(offset)) => Some(self.read_mmio(offset)),
            Some(Sa1Target::Iram(index)) => Some(self.iram[index]),
            Some(Sa1Target::Bwram(index)) => Some(self.bwram[index]),
            None => None,
        }
    }

    /// Service a CPU write to the SA-1 windows.
    pub fn write(&mut self, mapper: Mapper, address: u32, value: u8) -> (handled: bool)
        requires
            old(self).wf(),
        ensures
            final(self).wf(),
            handled == spec_decode_sa1(mapper, address) is Some,
            final(self)@ == sa1_written(old(self)@, mapper, address, value),
    {
        match decode_sa1(mapper, address) {
            Some(Sa1Target::Mmio(offset)) => {
                self.write_mmio(offset, value);
                true
            },
            Some(Sa1Target::Iram(index)) => {
                self.iram.set(index, value);
                true
            },
            Some(Sa1Target::Bwram(index)) => {
                self.bwram.set(index, value);
                true
            },
            None => false,
        }
    }

    /// Let `clocks` master cycles elapse.
    pub fn step(&mut self, clocks: u64)
        ensures
            final(self)@ == (Sa1View { regs: spec_sa1_step(old(self)@.regs, clocks), ..old(self)@ }),
    {
        if self.regs.status & 1 == 0 {
            return;
        }
        self.regs.accumulated_cycles = self.regs.accumulated_cycles.saturating_add(clocks);
        let countdown = max_one(self.regs.timer_counter) as u64;
        if self.regs.accumulated_cycles < countdown {
            return;
        }
        let message = self.regs.cpu_message;
        self.regs.accumulated_cycles = self.regs.accumulated_cycles - countdown;
        self.regs.status = (self.regs.status & !1u8) | 0x80u8;
        self.regs.pc = self.regs.reset_vector;
        self.regs.sa1_message = ((message as u16 + 0x33) % 256) as u8;
        self.regs.boot_token = message ^ 0xA5u8 ^ (self.regs.reset_vector as u8);
        self.regs.timer_counter = max_one(self.regs.timer_reload);
        if self.regs.irq_enable & 1 != 0 {
            self.regs.irq_pending = self.regs.irq_pending | 1;
            self.regs.status = self.regs.status | 0x40u8;
        }
    }

    fn read_mmio(&self, offset: u16) -> (v: u8)
        ensures
            v == spec_sa1_mmio_read(self@.regs, offset),
    {
        let r = self.regs;
        if offset == 0x00 {
            r.control
        } else if offset == 0x01 {
            r.status
        } else if offset == 0x02 {
            r.reset_vector as u8
        } else if offset == 0x03 {
            (r.reset_vector / 256) as u8
        } else if offset == 0x04 {
            r.irq_vector as u8
        } else if offset == 0x05 {
            (r.irq_vector / 256) as u8
        } else if offset == 0x06 {
            r.timer_reload as u8
        } else if offset == 0x07 {
            (r.timer_reload / 256) as u8
        } else if offset == 0x08 {
            r.cpu_message
        } else if offset == 0x09 {
            r.sa1_message
        } else if offset == 0x0A {
            r.irq_enable
        } else if offset == 0x0B {
            r.irq_pending
        } else if offset == 0x0C {
            r.pc as u8
        } else if offset == 0x0D {
            (r.pc / 256) as u8
        } else if offset == 0x0E {
            r.boot_token
        } else if offset == 0x0F {
            r.timer_counter as u8
        } else {
            0
        }
    }

    fn write_mmio(&mut self, offset: u16, value: u8)
        ensures
            final(self)@ == (Sa1View { regs: spec_sa1_mmio_write(old(self)@.regs, offset, value), ..old(self)@ }),
    {
        if offset == 0x00 {
            self.regs.control = value;
            if value & 1 != 0 {
                self.regs.status = 0;
                self.regs.irq_pending = 0;
                self.regs.pc = self.regs.reset_vector;
                self.regs.timer_counter = max_one(self.regs.timer_reload);
                self.regs.boot_token = 0;
            }
            if value & 0x80 != 0 {
                self.regs.status = self.regs.status | 1;
            }
        } else if offset == 0x02 {
            self.regs.reset_vector = (self.regs.reset_vector / 256) * 256 + value as u16;
        } else if offset == 0x03 {
            self.regs.reset_vector = self.regs.reset_vector % 256 + 256 * value as u16;
        } else if offset == 0x04 {
            self.regs.irq_vector = (self.regs.irq_vector / 256) * 256 + value as u16;
        } else if offset == 0x05 {
            self.regs.irq_vector = self.regs.irq_vector % 256 + 256 * value as u16;
        } else if offset == 0x06 {
            self.regs.timer_reload = (self.regs.timer_reload / 256) * 256 + value as u16;
            self.regs.timer_counter = max_one(self.regs.timer_reload);
        } else if offset == 0x07 {
            self.regs.timer_reload = self.regs.timer_reload % 256 + 256 * value as u16;
            self.regs.timer_counter = max_one(self.regs.timer_reload);
        } else if offset == 0x08 {
            self.regs.cpu_message = value;
        } else if offset == 0x0A {
            self.regs.irq_enable = value;
        } else if offset == 0x0B {
            self.regs.irq_pending = self.regs.irq_pending & !value;
            if self.regs.irq_pending == 0 {
                self.regs.status = self.regs.status & !0x40u8;
            }
        }
    }
}

} // verus!
