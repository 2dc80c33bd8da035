//! Cartridge coprocessor metadata and runtime models.
pub mod fixed;
pub mod trig;
pub mod dsp_math;
pub mod dsp_command;
pub mod dsp;
pub mod cx4;
pub mod secondary;
pub mod sa1;
pub mod superfx;

use vstd::prelude::*;

use crate::cartridge::{Cartridge, CartridgeHeader, Mapper};
use crate::ppu::FrameBuffer;
use crate::text::{chars_of, contains_seq, contains_upper, hex_padded, push_hex, upper_seq};

pub use self::cx4::Cx4Coprocessor;
pub use self::dsp::{DspCoprocessor, DspVariant};
pub use self::sa1::Sa1Coprocessor;
pub use self::secondary::{Obc1Coprocessor, SRtcCoprocessor, Sdd1Coprocessor};
pub use self::superfx::{SuperFxCoprocessor, SuperFxMap};
pub use self::trig::TrigTable;

verus! {

/// Coarse coprocessor family derived from the cartridge header.
#[derive(Debug, Clone, Copy, PartialEq, Eq, Structural)]
pub enum CoprocessorKind {
    /// NEC uPD77C25-based DSP family (`DSP-1/2/3/4`).
    Dsp,
    /// GSU / SuperFX family.
    SuperFx,
    /// Capcom Cx4 math coprocessor.
    Cx4,
    /// OBC1 object controller.
    Obc1,
    /// SA-1 companion CPU.
    Sa1,
    /// S-DD1 decompression chip.
    Sdd1,
    /// S-RTC real-time clock.
    SRtc,
    /// Custom coprocessor identified by the expanded header.
    Custom(u8),
}

impl CoprocessorKind {
    /// The family's display name.
    pub open spec fn spec_name(self) -> Seq<char> {
        match self {
            CoprocessorKind::Dsp => "DSP"@,
            CoprocessorKind::SuperFx => "SuperFX"@,
            CoprocessorKind::Cx4 => "Cx4"@,
            CoprocessorKind::Obc1 => "OBC1"@,
            CoprocessorKind::Sa1 => "SA-1"@,
            CoprocessorKind::Sdd1 => "S-DD1"@,
            CoprocessorKind::SRtc => "S-RTC"@,
            CoprocessorKind::Custom(v) => "Custom(0x"@ + hex_padded(v as nat, 2) + ")"@,
        }
    }

    /// The family's display name, as `DSP`, `SA-1` or `Custom(0x7F)`.
    pub fn name(&self) -> (s: String)
        ensures
            s@ == self.spec_name(),
    {
        match self {
            CoprocessorKind::Dsp => "DSP".to_owned(),
            CoprocessorKind::SuperFx => "SuperFX".to_owned(),
            CoprocessorKind::Cx4 => "Cx4".to_owned(),
            CoprocessorKind::Obc1 => "OBC1".to_owned(),
            CoprocessorKind::Sa1 => "SA-1".to_owned(),
            CoprocessorKind::Sdd1 => "S-DD1".to_owned(),
            CoprocessorKind::SRtc => "S-RTC".to_owned(),
            CoprocessorKind::Custom(v) => {
                let mut s = "Custom(0x".to_owned();
                push_hex(&mut s, *v as u64, 2);
                s.append(")");
                s
            },
        }
    }
}

/// Whether an upper-cased title names one of the Cx4 games.
pub open spec fn names_cx4_title(title: Seq<char>) -> bool {
    let t = upper_seq(title);
    contains_seq(t, " CX4"@) || contains_seq(t, "MEGA MAN X2"@) || contains_seq(t, "MEGA MAN X3"@)
        || contains_seq(t, "ROCKMAN X2"@) || contains_seq(t, "ROCKMAN X3"@)
}

/// The coprocessor family a header announces.
pub open spec fn spec_detect(header: CartridgeHeader) -> Option<CoprocessorKind> {
    let chipset = header.rom_type;
    if chipset < 0x03 {
        None
    } else if chipset == 0xF3 || names_cx4_title(header.title@) {
        Some(CoprocessorKind::Cx4)
    } else {
        let family = chipset / 16;
        if family == 0x0 {
            Some(CoprocessorKind::Dsp)
        } else if family == 0x1 {
            Some(CoprocessorKind::SuperFx)
        } else if family == 0x2 {
            Some(CoprocessorKind::Obc1)
        } else if family == 0x3 {
            Some(CoprocessorKind::Sa1)
        } else if family == 0x4 {
            Some(CoprocessorKind::Sdd1)
        } else if family == 0x5 {
            Some(CoprocessorKind::SRtc)
        } else if family == 0xF {
            Some(CoprocessorKind::Custom(0))
        } else {
            None
        }
    }
}

impl CoprocessorKind {
    /// Detect coprocessor class from the cartridge header chipset field.
    pub fn detect(header: &CartridgeHeader) -> (r: Option<Self>)
        ensures
            r == spec_detect(*header),
    {
        let chipset = header.rom_type;
        if chipset < 0x03 {
            return None;
        }
        let title = chars_of(header.title.as_str());
        if chipset == 0xF3 || contains_upper(&title, " CX4") || contains_upper(&title, "MEGA MAN X2")
            || contains_upper(&title, "MEGA MAN X3") || contains_upper(&title, "ROCKMAN X2")
            || contains_upper(&title, "ROCKMAN X3") {
            return Some(CoprocessorKind::Cx4);
        }
        let family = chipset >> 4u8;
        assert(family == chipset / 16) by (bit_vector) requires family == chipset >> 4u8;
        match family {
            0x0 => Some(CoprocessorKind::Dsp),
            0x1 => Some(CoprocessorKind::SuperFx),
            0x2 => Some(CoprocessorKind::Obc1),
            0x3 => Some(CoprocessorKind::Sa1),
            0x4 => Some(CoprocessorKind::Sdd1),
            0x5 => Some(CoprocessorKind::SRtc),
            0xF => Some(CoprocessorKind::Custom(0)),
            _ => None,
        }
    }
}

/// Runtime coprocessor slot attached to the system bus.
#[derive(Debug, Clone)]
pub enum Coprocessor {
    /// DSP-family runtime model.
    Dsp(DspCoprocessor),
    /// SuperFX register and execution model.
    SuperFx(SuperFxCoprocessor),
    /// SA-1 subsystem model.
    Sa1(Sa1Coprocessor),
    /// Cx4 math-command model.
    Cx4(Cx4Coprocessor),
    /// S-DD1 decompression model.
    Sdd1(Sdd1Coprocessor),
    /// OBC1 object attribute controller model.
    Obc1(Obc1Coprocessor),
    /// Deterministic S-RTC model.
    SRtc(SRtcCoprocessor),
}

/// Family of a runtime coprocessor.
pub open spec fn spec_kind(c: Coprocessor) -> CoprocessorKind {
    match c {
        Coprocessor::Dsp(_) => CoprocessorKind::Dsp,
        Coprocessor::SuperFx(_) => CoprocessorKind::SuperFx,
        Coprocessor::Sa1(_) => CoprocessorKind::Sa1,
        Coprocessor::Cx4(_) => CoprocessorKind::Cx4,
        Coprocessor::Sdd1(_) => CoprocessorKind::Sdd1,
        Coprocessor::Obc1(_) => CoprocessorKind::Obc1,
        Coprocessor::SRtc(_) => CoprocessorKind::SRtc,
    }
}

impl Coprocessor {
    /// Every chip model keeps its memory shapes.
    pub open spec fn wf(&self) -> bool {
        match *self {
            Coprocessor::SuperFx(s) => s.wf(),
            Coprocessor::Sa1(s) => s.wf(),
            Coprocessor::Cx4(c) => c.wf(),
            Coprocessor::Obc1(o) => o.wf(),
            Coprocessor::SRtc(r) => r.wf(),
            _ => true,
        }
    }

    /// Build the runtime coprocessor for a cartridge, if its header announces a modeled chip.
    pub fn for_cartridge(cartridge: &Cartridge, trig: &TrigTable) -> (c: Option<Self>)
        ensures
            c is Some <==> (spec_detect(cartridge.header_view()) is Some
                && !(spec_detect(cartridge.header_view()) matches Some(CoprocessorKind::Custom(_)))),
            c matches Some(chip) ==> Some(spec_kind(chip)) == spec_detect(cartridge.header_view()) && chip.wf(),
    {
        let kind = match CoprocessorKind::detect(cartridge.header()) {
            Some(kind) => kind,
            None => {
                return None;
            },
        };
        match kind {
            CoprocessorKind::Dsp => Some(Coprocessor::Dsp(DspCoprocessor::new(cartridge.header(), trig.clone()))),
            CoprocessorKind::SuperFx => Some(Coprocessor::SuperFx(SuperFxCoprocessor::new(cartridge))),
            CoprocessorKind::Sa1 => Some(Coprocessor::Sa1(Sa1Coprocessor::new(cartridge))),
            CoprocessorKind::Cx4 => Some(Coprocessor::Cx4(Cx4Coprocessor::new(cartridge.header(), trig.clone()))),
            CoprocessorKind::Sdd1 => Some(Coprocessor::Sdd1(Sdd1Coprocessor::new())),
            CoprocessorKind::Obc1 => Some(Coprocessor::Obc1(Obc1Coprocessor::new())),
            CoprocessorKind::SRtc => Some(Coprocessor::SRtc(SRtcCoprocessor::new())),
            CoprocessorKind::Custom(_) => None,
        }
    }

    /// The coprocessor family.
    pub fn kind(&self) -> (k: CoprocessorKind)
        ensures
            k == spec_kind(*self),
    {
        match self {
            Coprocessor::Dsp(_) => CoprocessorKind::Dsp,
            Coprocessor::SuperFx(_) => CoprocessorKind::SuperFx,
            Coprocessor::Sa1(_) => CoprocessorKind::Sa1,
            Coprocessor::Cx4(_) => CoprocessorKind::Cx4,
            Coprocessor::Sdd1(_) => CoprocessorKind::Sdd1,
            Coprocessor::Obc1(_) => CoprocessorKind::Obc1,
            Coprocessor::SRtc(_) => CoprocessorKind::SRtc,
        }
    }

    /// `next` is this chip after a reset: back to its power-on state, keeping what the
    /// cartridge gave it (the DSP's variant, address map and tables, the SuperFX's map and ROM,
    /// the Cx4's tables, the SA-1's timer reload and reset vector).
    pub open spec fn reset_relation(self, next: Coprocessor) -> bool {
        match self {
            Coprocessor::Dsp(d) => next matches Coprocessor::Dsp(e)
                && e@ == dsp::initial_dsp(d@.variant, d@.map, d@.trig),
            Coprocessor::SuperFx(s) => next matches Coprocessor::SuperFx(e)
                && e@ == superfx::initial_superfx(s@.map, s@.rom),
            Coprocessor::Sa1(s) => next matches Coprocessor::Sa1(e) && e@ == (sa1::Sa1View {
                regs: sa1::Sa1Regs {
                    control: 0,
                    status: 0,
                    timer_counter: sa1::at_least_one(s@.regs.timer_reload),
                    irq_pending: 0,
                    cpu_message: 0,
                    sa1_message: 0,
                    boot_token: 0,
                    pc: s@.regs.reset_vector,
                    accumulated_cycles: 0,
                    ..s@.regs
                },
                iram: Seq::new(0x800, |i: int| 0u8),
                bwram: Seq::new(0x2000, |i: int| 0u8),
            }),
            Coprocessor::Cx4(c) => next matches Coprocessor::Cx4(e) && e@ == (cx4::Cx4View {
                ram: cx4::initial_cx4_ram(),
                busy_cycles: 0,
                pending_command: None,
                trig: c@.trig,
            }),
            Coprocessor::Sdd1(_) => next matches Coprocessor::Sdd1(e) && e@ == secondary::initial_sdd1(),
            Coprocessor::Obc1(_) => next matches Coprocessor::Obc1(e) && e@ == secondary::initial_obc1(),
            Coprocessor::SRtc(_) => next matches Coprocessor::SRtc(e) && e@ == secondary::initial_srtc(),
        }
    }

    /// Reset transient runtime state of the chip.
    pub fn reset(&mut self)
        requires
            old(self).wf(),
        ensures
            final(self).wf(),
            spec_kind(*final(self)) == spec_kind(*old(self)),
            old(self).reset_relation(*final(self)),
    {
        match self {
            Coprocessor::Dsp(dsp) => dsp.reset(),
            Coprocessor::SuperFx(superfx) => superfx.reset(),
            Coprocessor::Sa1(sa1) => sa1.reset(),
            Coprocessor::Cx4(cx4) => cx4.reset(),
            Coprocessor::Sdd1(sdd1) => sdd1.reset(),
            Coprocessor::Obc1(obc1) => obc1.reset(),
            Coprocessor::SRtc(srtc) => srtc.reset(),
        }
    }

    /// A read of `address` answered `r` and left the chip as `next`: each chip answers from
    /// its own window, `None` for addresses it does not decode.
    pub open spec fn read_relation(self, next: Coprocessor, mapper: Mapper, address: u32, r: Option<u8>) -> bool {
        match self {
            Coprocessor::Dsp(d) => next matches Coprocessor::Dsp(e)
                && (e@, r) == dsp::spec_read(d@, mapper, address),
            Coprocessor::Cx4(c) => next matches Coprocessor::Cx4(e) && e@ == c@
                && r == match cx4::spec_decode_cx4(mapper, address) { Some(i) => Some(c@.ram[i]), None => None::<u8> },
            Coprocessor::SuperFx(s) => next matches Coprocessor::SuperFx(e) && e@ == s@
                && r == match superfx::spec_decode_superfx(address) {
                    Some(register) => Some(superfx::spec_superfx_read(s@, register)),
                    None => None::<u8>,
                },
            Coprocessor::Sa1(s) => next matches Coprocessor::Sa1(e) && e@ == s@
                && r == match sa1::spec_decode_sa1(mapper, address) {
                    Some(sa1::Sa1Target::Mmio(o)) => Some(sa1::spec_sa1_mmio_read(s@.regs, o)),
                    Some(sa1::Sa1Target::Iram(i)) => Some(s@.iram[i as int]),
                    Some(sa1::Sa1Target::Bwram(i)) => Some(s@.bwram[i as int]),
                    None => None::<u8>,
                },
            Coprocessor::Sdd1(s) => next matches Coprocessor::Sdd1(e)
                && match secondary::spec_decode_window(mapper, address, 0x4800, 0x4807) {
                    None => r is None && e@ == s@,
                    Some(o) => r == Some(secondary::spec_sdd1_read(s@, o).1) && e@ == secondary::spec_sdd1_read(s@, o).0,
                },
            Coprocessor::Obc1(s) => next matches Coprocessor::Obc1(e) && e@ == s@
                && r == match secondary::spec_decode_window(mapper, address, 0x6000, 0x7FFF) {
                    Some(o) => Some(secondary::spec_obc1_read(s@, o)),
                    None => None::<u8>,
                },
            Coprocessor::SRtc(s) => next matches Coprocessor::SRtc(e)
                && match secondary::spec_decode_window(mapper, address, 0x2800, 0x2801) {
                    None => r is None && e@ == s@,
                    Some(o) => r == Some(secondary::spec_srtc_read(s@, o).1) && e@ == secondary::spec_srtc_read(s@, o).0,
                },
    }
    }

    /// A write of `value` to `address` left the chip as `next`; `handled` when the chip
    /// decodes the address.
    pub open spec fn write_relation(self, next: Coprocessor, mapper: Mapper, address: u32, value: u8, handled: bool) -> bool {
        match self {
            Coprocessor::Dsp(d) => next matches Coprocessor::Dsp(e)
                && (e@, handled) == dsp::spec_write(d@, mapper, address, value),
            Coprocessor::SuperFx(s) => next matches Coprocessor::SuperFx(e)
                && handled == superfx::spec_decode_superfx(address) is Some
                && e@ == match superfx::spec_decode_superfx(address) {
                    Some(register) => superfx::spec_superfx_write(s@, register, value),
                    None => s@,
                },
            Coprocessor::Sa1(s) => next matches Coprocessor::Sa1(e)
                && handled == sa1::spec_decode_sa1(mapper, address) is Some
                && e@ == match sa1::spec_decode_sa1(mapper, address) {
                    Some(sa1::Sa1Target::Mmio(o)) => sa1::Sa1View { regs: sa1::spec_sa1_mmio_write(s@.regs, o, value), ..s@ },
                    Some(sa1::Sa1Target::Iram(i)) => sa1::Sa1View { iram: s@.iram.update(i as int, value), ..s@ },
                    Some(sa1::Sa1Target::Bwram(i)) => sa1::Sa1View { bwram: s@.bwram.update(i as int, value), ..s@ },
                    None => s@,
                },
            Coprocessor::Cx4(c) => next matches Coprocessor::Cx4(e)
                && handled == cx4::spec_decode_cx4(mapper, address) is Some
                && e@ == match cx4::spec_decode_cx4(mapper, address) {
                    None => c@,
                    Some(i) => if i == 0x1F40 {
                        cx4::Cx4View {
                            ram: c@.ram.update(i, value).update(0x1F41, 0),
                            pending_command: Some(value),
                            busy_cycles: cx4::spec_cx4_latency(value),
                            ..c@
                        }
                    } else {
                        cx4::Cx4View { ram: c@.ram.update(i, value), ..c@ }
                    },
                },
            Coprocessor::Sdd1(s) => next matches Coprocessor::Sdd1(e)
                && match secondary::spec_decode_window(mapper, address, 0x4800, 0x4807) {
                    None => !handled && e@ == s@,
                    Some(o) => handled && e@ == secondary::spec_sdd1_write(s@, o, value),
                },
            Coprocessor::Obc1(s) => next matches Coprocessor::Obc1(e)
                && match secondary::spec_decode_window(mapper, address, 0x6000, 0x7FFF) {
                    None => !handled && e@ == s@,
                    Some(o) => handled && e@ == secondary::spec_obc1_write(s@, o, value),
                },
            Coprocessor::SRtc(s) => next matches Coprocessor::SRtc(e)
                && match secondary::spec_decode_window(mapper, address, 0x2800, 0x2801) {
                    None => !handled && e@ == s@,
                    Some(o) => handled && e@ == secondary::spec_srtc_write(s@, o, value),
                },
    }
    }

    /// Service a CPU read from a coprocessor-mapped address; `None` when the chip does not
    /// decode it.
    pub fn read(&mut self, mapper: Mapper, address: u32) -> (r: Option<u8>)
        requires
            old(self).wf(),
        ensures
            final(self).wf(),
            spec_kind(*final(self)) == spec_kind(*old(self)),
            old(self).read_relation(*final(self), mapper, address, r),
    {
        match self {
            Coprocessor::Dsp(dsp) => dsp.read(mapper, address),
            Coprocessor::SuperFx(superfx) => superfx.read(mapper, address),
            Coprocessor::Sa1(sa1) => sa1.read(mapper, address),
            Coprocessor::Cx4(cx4) => cx4.read(mapper, address),
            Coprocessor::Sdd1(sdd1) => sdd1.read(mapper, address),
            Coprocessor::Obc1(obc1) => obc1.read(mapper, address),
            Coprocessor::SRtc(srtc) => srtc.read(mapper, address),
        }
    }

    /// Service a CPU write to a coprocessor-mapped address; `false` when the chip does not
    /// decode it.
    pub fn write(&mut self, mapper: Mapper, address: u32, value: u8) -> (handled: bool)
        requires
            old(self).wf(),
        ensures
            final(self).wf(),
            spec_kind(*final(self)) == spec_kind(*old(self)),
            old(self).write_relation(*final(self), mapper, address, value, handled),
    {
        match self {
            Coprocessor::Dsp(dsp) => dsp.write(mapper, address, value),
            Coprocessor::SuperFx(superfx) => superfx.write(mapper, address, value),
            Coprocessor::Sa1(sa1) => sa1.write(mapper, address, value),
            Coprocessor::Cx4(cx4) => cx4.write(mapper, address, value),
            Coprocessor::Sdd1(sdd1) => sdd1.write(mapper, address, value),
            Coprocessor::Obc1(obc1) => obc1.write(mapper, address, value),
            Coprocessor::SRtc(srtc) => srtc.write(mapper, address, value),
        }
    }

    /// `next` is this chip after `clocks` master cycles of its own work.
    pub open spec fn step_relation(self, next: Coprocessor, clocks: u64) -> bool {
        match self {
            Coprocessor::Dsp(d) => next matches Coprocessor::Dsp(e) && e@ == dsp::spec_step(d@, clocks),
            Coprocessor::Obc1(o) => next matches Coprocessor::Obc1(e) && e@ == o@,
            Coprocessor::SRtc(r) => next matches Coprocessor::SRtc(e) && e@ == r@,
            Coprocessor::SuperFx(x) => next matches Coprocessor::SuperFx(e) && e@ == superfx::spec_run(
                superfx::SuperFxView {
                    cycles: if x@.cycles as int + clocks as int > u64::MAX { u64::MAX } else { (x@.cycles + clocks) as u64 },
                    ..x@
                },
                clocks,
            ),
            Coprocessor::Sa1(x) => next matches Coprocessor::Sa1(e)
                && e@ == (sa1::Sa1View { regs: sa1::spec_sa1_step(x@.regs, clocks), ..x@ }),
            Coprocessor::Sdd1(x) => next matches Coprocessor::Sdd1(e) && e@ == secondary::spec_sdd1_step(x@, clocks),
            Coprocessor::Cx4(x) => next matches Coprocessor::Cx4(e) && e@ == if x@.busy_cycles == 0 {
                x@
            } else if x@.busy_cycles > clocks {
                cx4::Cx4View { busy_cycles: (x@.busy_cycles - clocks) as u64, ..x@ }
            } else {
                cx4::Cx4View {
                    ram: (match x@.pending_command {
                        Some(c) => cx4::spec_cx4_execute(x@.ram, c, x@.trig),
                        None => x@.ram,
                    }).update(0x1F41, 0x81),
                    busy_cycles: 0,
                    pending_command: None,
                    ..x@
                }
            },
        }
    }

    /// Advance coprocessor-internal timing, for the chips that keep time.
    pub fn step_master_cycles(&mut self, clocks: u64)
        requires
            old(self).wf(),
        ensures
            final(self).wf(),
            spec_kind(*final(self)) == spec_kind(*old(self)),
            old(self).step_relation(*final(self), clocks),
    {
        match self {
            Coprocessor::Dsp(dsp) => dsp.step_master_cycles(clocks),
            Coprocessor::SuperFx(superfx) => superfx.step(clocks),
            Coprocessor::Sa1(sa1) => sa1.step(clocks),
            Coprocessor::Cx4(cx4) => cx4.step(clocks),
            Coprocessor::Sdd1(sdd1) => sdd1.step(clocks),
            Coprocessor::Obc1(_) => {},
            Coprocessor::SRtc(_) => {},
        }
    }

    /// A frame with this coprocessor's overlay drawn on it: the SuperFX's plotted pixels
    /// (those with non-zero alpha) replace the frame's; other chips draw nothing.
    pub open spec fn overlay_onto(self, frame: Seq<u8>) -> Seq<u8> {
        match self {
            Coprocessor::SuperFx(superfx) => Seq::new(229376, |i: int|
                if superfx@.overlay[(i / 4) * 4 + 3] != 0 { superfx@.overlay[i] } else { frame[i] }),
            _ => frame,
        }
    }

    /// Draw any coprocessor-owned overlay onto the frame (only the SuperFX has one).
    pub fn render_overlay(&self, framebuffer: &mut FrameBuffer)
        requires
            self.wf(),
            old(framebuffer).wf(),
        ensures
            final(framebuffer).wf(),
            final(framebuffer).pixels_view() == self.overlay_onto(old(framebuffer).pixels_view()),
    {
        match self {
            Coprocessor::SuperFx(superfx) => superfx.render_overlay(framebuffer),
            _ => {},
        }
    }
}

} // verus!
