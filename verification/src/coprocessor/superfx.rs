//! SuperFX register, cache and instruction model with a plot overlay.
use vstd::prelude::*;

use crate::cartridge::{Cartridge, Mapper};
use crate::cartridge::header::spec_rom_size_bytes;
use crate::ppu::FrameBuffer;

verus! {

const SUPERFX_WIDTH: usize = 256;
const SUPERFX_HEIGHT: usize = 224;
const OVERLAY_BYTES: usize = 229376;

/// SuperFX address-map classification used for register routing.
#[derive(Debug, Clone, Copy, PartialEq, Eq, Structural)]
pub enum SuperFxMap {
    /// SuperFX-1 style board layout.
    SuperFx1,
    /// SuperFX-2 style board layout.
    SuperFx2,
}

impl SuperFxMap {
    /// The board layout's display name.
    pub fn name(&self) -> (s: &'static str)
        ensures
            s@ == match self {
                SuperFxMap::SuperFx1 => "SuperFX-1"@,
                SuperFxMap::SuperFx2 => "SuperFX-2"@,
            },
    {
        match self {
            SuperFxMap::SuperFx1 => "SuperFX-1",
            SuperFxMap::SuperFx2 => "SuperFX-2",
        }
    }
}

/// A SuperFX register selected by a CPU address.
#[derive(Debug, Clone, Copy, PartialEq, Eq, Structural)]
pub enum SuperFxRegister {
    /// Half (`true` = high byte) of general register `R0-R15`.
    R(usize, bool),
    /// Status/flag register, low byte.
    SfrLow,
    /// Status/flag register, high byte.
    SfrHigh,
    /// Backup RAM register.
    Bramr,
    /// Program bank register.
    Pbr,
    /// ROM bank register.
    Rombr,
    /// Config register.
    Cfgr,
    /// Screen base register.
    Scbr,
    /// Clock select register.
    Clsr,
    /// Screen mode register.
    Scmr,
    /// Version code register.
    Vcr,
    /// RAM bank register.
    Rambr,
    /// Cache base register, low byte.
    CbrLow,
    /// Cache base register, high byte.
    CbrHigh,
    /// Byte of the instruction cache.
    Cache(usize),
}

/// Abstract state of the SuperFX.
pub struct SuperFxView {
    /// Board layout.
    pub map: SuperFxMap,
    /// General registers `R0-R15`.
    pub regs: Seq<u16>,
    /// Status/flag register.
    pub sfr: u16,
    /// Backup RAM register.
    pub bramr: u8,
    /// Program bank.
    pub pbr: u8,
    /// ROM bank.
    pub rombr: u8,
    /// Config register.
    pub cfgr: u8,
    /// Screen base.
    pub scbr: u8,
    /// Clock select.
    pub clsr: u8,
    /// Screen mode.
    pub scmr: u8,
    /// Version code.
    pub vcr: u8,
    /// RAM bank.
    pub rambr: u8,
    /// Cache base.
    pub cbr: u16,
    /// 512-byte instruction cache.
    pub cache: Seq<u8>,
    /// Validity of the 32 cache lines.
    pub cache_valid: Seq<bool>,
    /// The GSU is executing.
    pub running: bool,
    /// Master cycles seen.
    pub cycles: u64,
    /// Cartridge ROM.
    pub rom: Seq<u8>,
    /// Game Pak RAM.
    pub ram: Seq<u8>,
    /// RGBA plot overlay.
    pub overlay: Seq<u8>,
    /// ROM buffer byte.
    pub rom_buffer: u8,
    /// Plot color.
    pub color_register: u8,
    /// ALT1 prefix.
    pub alt1: bool,
    /// ALT2 prefix.
    pub alt2: bool,
}

/// Register selected by a CPU address (only the 16-bit offset matters).
pub open spec fn spec_decode_superfx(address: u32) -> Option<SuperFxRegister> {
    let offset = address as int % 0x10000;
    if 0x3000 <= offset <= 0x301F {
        Some(SuperFxRegister::R(((offset % 32) / 2) as usize, offset % 2 == 1))
    } else if offset == 0x3030 {
        Some(SuperFxRegister::SfrLow)
    } else if offset == 0x3031 {
        Some(SuperFxRegister::SfrHigh)
    } else if offset == 0x3033 {
        Some(SuperFxRegister::Bramr)
    } else if offset == 0x3034 {
        Some(SuperFxRegister::Pbr)
    } else if offset == 0x3036 {
        Some(SuperFxRegister::Rombr)
    } else if offset == 0x3037 {
        Some(SuperFxRegister::Cfgr)
    } else if offset == 0x3038 {
        Some(SuperFxRegister::Scbr)
    } else if offset == 0x3039 {
        Some(SuperFxRegister::Clsr)
    } else if offset == 0x303A {
        Some(SuperFxRegister::Scmr)
    } else if offset == 0x303B {
        Some(SuperFxRegister::Vcr)
    } else if offset == 0x303C {
        Some(SuperFxRegister::Rambr)
    } else if offset == 0x303E {
        Some(SuperFxRegister::CbrLow)
    } else if offset == 0x303F {
        Some(SuperFxRegister::CbrHigh)
    } else if 0x3100 <= offset <= 0x32FF {
        Some(SuperFxRegister::Cache((offset - 0x3100) as usize))
    } else {
        None
    }
}

/// Replace the low byte of a word.
pub open spec fn low_byte_set(word: u16, value: u8) -> u16 {
    ((word as int / 256) * 256 + value as int) as u16
}

/// Replace the high byte of a word.
pub open spec fn high_byte_set(word: u16, value: u8) -> u16 {
    ((word as int % 256) + 256 * value as int) as u16
}

/// ROM byte the GSU sees at a 24-bit address (`0xFF` without ROM).
pub open spec fn spec_rom_byte(rom: Seq<u8>, address: u32) -> u8 {
    if rom.len() == 0 {
        0xFF
    } else {
        let bank = (address as int / 0x10000) % 0x80;
        let offset = address as int % 0x10000;
        let index = if bank <= 0x3F {
            if offset <= 0x7FFF { bank * 0x8000 + offset } else { bank * 0x8000 + (offset - 0x8000) }
        } else if bank <= 0x5F {
            (bank - 0x40) * 0x10000 + offset
        } else {
            offset
        };
        rom[index % (rom.len() as int)]
    }
}

/// 24-bit address of program byte `pbr:r15`.
pub open spec fn program_address(v: SuperFxView) -> u32 {
    (v.pbr as int * 0x10000 + v.regs[15] as int) as u32
}

/// Cache offset of a program address, when it lies in the cache window.
pub open spec fn spec_cache_offset(v: SuperFxView, address: u32) -> Option<int> {
    let base = v.pbr as int * 0x10000 + v.cbr as int;
    if base <= address < base + 0x200 { Some(address - base) } else { None }
}

/// Address of byte `offset` of the cache window.
pub open spec fn cbr_address(v: SuperFxView, offset: int) -> u32 {
    (v.pbr as int * 0x10000 + (v.cbr as int + offset) % 0x10000) as u32
}

/// State with the ROM buffer reloaded from `rombr:r14`.
pub open spec fn reloaded(v: SuperFxView) -> SuperFxView {
    SuperFxView { rom_buffer: spec_rom_byte(v.rom, (v.rombr as int * 0x10000 + v.regs[14] as int) as u32), ..v }
}

/// State with every cache line invalid.
pub open spec fn flushed(v: SuperFxView) -> SuperFxView {
    SuperFxView { cache_valid: Seq::new(0x20, |i: int| false), ..v }
}

/// State and byte after fetching one program byte (filling its cache line on a miss).
pub open spec fn spec_fetch(v: SuperFxView) -> (SuperFxView, u8) {
    let address = program_address(v);
    let advanced = SuperFxView { regs: v.regs.update(15, ((v.regs[15] + 1) % 0x10000) as u16), ..v };
    match spec_cache_offset(v, address) {
        Some(offset) => {
            let line = offset / 16;
            if v.cache_valid[line] {
                (advanced, v.cache[offset])
            } else {
                let base = line * 16;
                let cache = Seq::new(0x200, |j: int| if base <= j < base + 16 {
                    spec_rom_byte(advanced.rom, cbr_address(advanced, j))
                } else {
                    advanced.cache[j]
                });
                (SuperFxView { cache, cache_valid: advanced.cache_valid.update(line, true), ..advanced }, cache[offset])
            }
        },
        None => (advanced, spec_rom_byte(v.rom, address)),
    }
}

/// RGB bytes of a 2-bit-per-channel plot color.
pub open spec fn spec_decode_color(c: u8) -> (u8, u8, u8) {
    (((c % 4) * 85) as u8, (((c / 4) % 4) * 85) as u8, (((c / 16) % 4) * 85) as u8)
}

/// Overlay after plotting a pixel.
pub open spec fn spec_plot(overlay: Seq<u8>, x: u8, y: u8, color: u8) -> Seq<u8> {
    if y >= 224 {
        overlay
    } else {
        let i = (y as int * 256 + x as int) * 4;
        let (r, g, b) = spec_decode_color(color);
        overlay.update(i, r).update(i + 1, g).update(i + 2, b).update(i + 3, 0xFF)
    }
}

/// Plot color encoded from the RGB bytes at a pixel (zero off screen).
pub open spec fn spec_read_pixel(overlay: Seq<u8>, x: u8, y: u8) -> u8 {
    if y >= 224 {
        0
    } else {
        let i = (y as int * 256 + x as int) * 4;
        ((overlay[i + 2] / 85) * 16 + (overlay[i + 1] / 85) * 4 + overlay[i] / 85) as u8
    }
}

/// State with the ALT prefixes cleared.
pub open spec fn unprefixed(v: SuperFxView) -> SuperFxView {
    SuperFxView { alt1: false, alt2: false, ..v }
}

/// State after the GSU stops and raises its IRQ flag.
pub open spec fn stopped(v: SuperFxView) -> SuperFxView {
    SuperFxView { running: false, sfr: (v.sfr & !0x20u16) | 0x8000u16, ..v }
}

/// State and cycle cost after executing one instruction.
pub open spec fn spec_step_instruction(v0: SuperFxView) -> (SuperFxView, u64) {
    let (v, opcode) = spec_fetch(v0);
    if opcode == 0x00 {
        (stopped(v), 2)
    } else if opcode == 0x01 {
        (v, 2)
    } else if opcode == 0x02 {
        (flushed(SuperFxView { cbr: v.regs[15] & 0xFFF0u16, ..v }), 2)
    } else if opcode == 0x3D {
        (SuperFxView { alt1: true, ..v }, 2)
    } else if opcode == 0x3E {
        (SuperFxView { alt2: true, ..v }, 2)
    } else if opcode == 0x3F {
        (SuperFxView { alt1: true, alt2: true, ..v }, 2)
    } else if opcode == 0x4C {
        if v.alt1 {
            (unprefixed(SuperFxView {
                regs: v.regs.update(0, spec_read_pixel(v.overlay, v.regs[1] as u8, v.regs[2] as u8) as u16),
                ..v
            }), 4)
        } else {
            (unprefixed(SuperFxView {
                overlay: spec_plot(v.overlay, v.regs[1] as u8, v.regs[2] as u8, v.color_register),
                regs: v.regs.update(1, ((v.regs[1] + 1) % 0x10000) as u16),
                ..v
            }), 4)
        }
    } else if opcode == 0xDF {
        let next = if !v.alt1 && !v.alt2 {
            SuperFxView { color_register: v.rom_buffer, ..v }
        } else if v.alt1 && v.alt2 {
            reloaded(SuperFxView { rombr: (v.regs[0] % 0x80) as u8, ..v })
        } else if !v.alt1 && v.alt2 {
            SuperFxView { rambr: (v.regs[0] % 2) as u8, ..v }
        } else {
            SuperFxView { color_register: (v.rom_buffer / 16) % 16, ..v }
        };
        (unprefixed(next), 2)
    } else if 0xD0 <= opcode <= 0xDE {
        let r = (opcode % 16) as int;
        (unprefixed(SuperFxView { regs: v.regs.update(r, ((v.regs[r] + 1) % 0x10000) as u16), ..v }), 2)
    } else if 0xE0 <= opcode <= 0xEE {
        let r = (opcode % 16) as int;
        (unprefixed(SuperFxView { regs: v.regs.update(r, ((v.regs[r] - 1 + 0x10000) % 0x10000) as u16), ..v }), 2)
    } else if opcode >= 0xF0 {
        let r = (opcode % 16) as int;
        let (v1, lo) = spec_fetch(v);
        let (v2, hi) = spec_fetch(v1);
        let set = SuperFxView { regs: v2.regs.update(r, (lo as int + 256 * hi as int) as u16), ..v2 };
        (unprefixed(if r == 14 { reloaded(set) } else { set }), 6)
    } else {
        (unprefixed(stopped(v)), 2)
    }
}

/// State after running instructions for a budget of master cycles: instructions run while
/// the GSU is running and budget remains; the instruction that exceeds the budget still runs.
pub open spec fn spec_run(v: SuperFxView, budget: u64) -> SuperFxView
    decreases budget,
{
    if !v.running || budget == 0 {
        v
    } else {
        let (next, cost) = spec_step_instruction(v);
        if cost == 0 || cost > budget { next } else { spec_run(next, (budget - cost) as u64) }
    }
}

/// State after a CPU write to a register.
pub open spec fn spec_superfx_write(v: SuperFxView, register: SuperFxRegister, value: u8) -> SuperFxView {
    match register {
        SuperFxRegister::R(i, half) => {
            let set = SuperFxView {
                regs: v.regs.update(i as int, if half { high_byte_set(v.regs[i as int], value) } else { low_byte_set(v.regs[i as int], value) }),
                ..v
            };
            let buffered = if i == 14 && half { reloaded(set) } else { set };
            if i == 15 && half { SuperFxView { running: true, sfr: buffered.sfr | 0x20u16, ..buffered } } else { buffered }
        },
        SuperFxRegister::SfrLow => {
            let sfr = low_byte_set(v.sfr, value);
            if v.sfr % 2 == 1 && sfr % 2 == 0 {
                flushed(SuperFxView { sfr, cbr: 0, ..v })
            } else {
                SuperFxView { sfr, ..v }
            }
        },
        SuperFxRegister::SfrHigh => SuperFxView { sfr: high_byte_set(v.sfr, value), ..v },
        SuperFxRegister::Bramr => SuperFxView { bramr: value % 2, ..v },
        SuperFxRegister::Pbr => flushed(SuperFxView { pbr: value % 0x80, ..v }),
        SuperFxRegister::Rombr => reloaded(SuperFxView { rombr: value % 0x80, ..v }),
        SuperFxRegister::Cfgr => SuperFxView { cfgr: value, ..v },
        SuperFxRegister::Scbr => SuperFxView { scbr: value, ..v },
        SuperFxRegister::Clsr => SuperFxView { clsr: value % 2, ..v },
        SuperFxRegister::Scmr => SuperFxView { scmr: value, ..v },
        SuperFxRegister::Vcr => SuperFxView { vcr: value, ..v },
        SuperFxRegister::Rambr => SuperFxView { rambr: value % 2, ..v },
        SuperFxRegister::CbrLow => SuperFxView { cbr: low_byte_set(v.cbr, value), ..v },
        SuperFxRegister::CbrHigh => SuperFxView { cbr: high_byte_set(v.cbr, value), ..v },
        SuperFxRegister::Cache(o) => SuperFxView { cache: v.cache.update(o as int, value), ..v },
    }
}

/// Value a CPU read of a register observes.
pub open spec fn spec_superfx_read(v: SuperFxView, register: SuperFxRegister) -> u8 {
    match register {
        SuperFxRegister::R(i, half) => if half { (v.regs[i as int] / 256) as u8 } else { (v.regs[i as int] % 256) as u8 },
        SuperFxRegister::SfrLow => (v.sfr % 256) as u8,
        SuperFxRegister::SfrHigh => (v.sfr / 256) as u8,
        SuperFxRegister::Bramr => v.bramr,
        SuperFxRegister::Pbr => v.pbr,
        SuperFxRegister::Rombr => v.rombr,
        SuperFxRegister::Cfgr => v.cfgr,
        SuperFxRegister::Scbr => v.scbr,
        SuperFxRegister::Clsr => v.clsr,
        SuperFxRegister::Scmr => v.scmr,
        SuperFxRegister::Vcr => v.vcr,
        SuperFxRegister::Rambr => v.rambr,
        SuperFxRegister::CbrLow => (v.cbr % 256) as u8,
        SuperFxRegister::CbrHigh => (v.cbr / 256) as u8,
        SuperFxRegister::Cache(o) => v.cache[o as int],
    }
}

/// Shape of every SuperFX state.
pub open spec fn superfx_shape(v: SuperFxView) -> bool {
    &&& v.regs.len() == 16
    &&& v.cache.len() == 0x200
    &&& v.cache_valid.len() == 0x20
    &&& v.overlay.len() == 229376
    &&& v.pbr < 0x80
    &&& v.rombr < 0x80
}

/// SuperFX register and cache model.
#[derive(Debug, Clone)]
pub struct SuperFxCoprocessor {
    map: SuperFxMap,
    regs: [u16; 16],
    sfr: u16,
    bramr: u8,
    pbr: u8,
    rombr: u8,
    cfgr: u8,
    scbr: u8,
    clsr: u8,
    scmr: u8,
    vcr: u8,
    rambr: u8,
    cbr: u16,
    cache: Vec<u8>,
    cache_valid: Vec<bool>,
    running: bool,
    cycles: u64,
    rom: Vec<u8>,
    ram: Vec<u8>,
    overlay: Vec<u8>,
    rom_buffer: u8,
    color_register: u8,
    alt1: bool,
    alt2: bool,
}

impl View for SuperFxCoprocessor {
    type V = SuperFxView;

    closed spec fn view(&self) -> SuperFxView {
        SuperFxView {
            map: self.map,
            regs: self.regs@,
            sfr: self.sfr,
            bramr: self.bramr,
            pbr: self.pbr,
            rombr: self.rombr,
            cfgr: self.cfgr,
            scbr: self.scbr,
            clsr: self.clsr,
            scmr: self.scmr,
            vcr: self.vcr,
            rambr: self.rambr,
            cbr: self.cbr,
            cache: self.cache@,
            cache_valid: self.cache_valid@,
            running: self.running,
            cycles: self.cycles,
            rom: self.rom@,
            ram: self.ram@,
            overlay: self.overlay@,
            rom_buffer: self.rom_buffer,
            color_register: self.color_register,
            alt1: self.alt1,
            alt2: self.alt2,
        }
    }
}

/// Board layout of a cartridge: SuperFX-2 for HiROM headers or ROMs above 2 MiB.
pub open spec fn spec_superfx_map(cartridge: Cartridge) -> SuperFxMap {
    if cartridge.header_view().mapper == Mapper::HiRom || spec_rom_size_bytes(cartridge.header_view()) > 2 * 1024 * 1024 {
        SuperFxMap::SuperFx2
    } else {
        SuperFxMap::SuperFx1
    }
}

/// State of a fresh SuperFX for a map and ROM.
pub open spec fn initial_superfx(map: SuperFxMap, rom: Seq<u8>) -> SuperFxView {
    SuperFxView {
        map,
        regs: Seq::new(16, |i: int| 0u16),
        sfr: 0,
        bramr: 0,
        pbr: 0,
        rombr: 0,
        cfgr: 0,
        scbr: 0,
        clsr: 0,
        scmr: 0,
        vcr: 0,
        rambr: 0,
        cbr: 0,
        cache: Seq::new(0x200, |i: int| 0xFFu8),
        cache_valid: Seq::new(0x20, |i: int| false),
        running: false,
        cycles: 0,
        rom,
        ram: Seq::new(0x20000, |i: int| 0u8),
        overlay: Seq::new(229376, |i: int| 0u8),
        rom_buffer: 0,
        color_register: 0,
        alt1: false,
        alt2: false,
    }
}

fn decode_superfx(address: u32) -> (r: Option<SuperFxRegister>)
    ensures
        r == spec_decode_superfx(address),
        r matches Some(SuperFxRegister::R(i, _)) ==> i < 16,
        r matches Some(SuperFxRegister::Cache(o)) ==> o < 0x200,
{
    let offset = address % 0x10000;
    if 0x3000 <= offset && offset <= 0x301F {
        Some(SuperFxRegister::R(((offset % 32) / 2) as usize, offset % 2 == 1))
    } else if offset == 0x3030 {
        Some(SuperFxRegister::SfrLow)
    } else if offset == 0x3031 {
        Some(SuperFxRegister::SfrHigh)
    } else if offset == 0x3033 {
        Some(SuperFxRegister::Bramr)
    } else if offset == 0x3034 {
        Some(SuperFxRegister::Pbr)
    } else if offset == 0x3036 {
        Some(SuperFxRegister::Rombr)
    } else if offset == 0x3037 {
        Some(SuperFxRegister::Cfgr)
    } else if offset == 0x3038 {
        Some(SuperFxRegister::Scbr)
    } else if offset == 0x3039 {
        Some(SuperFxRegister::Clsr)
    } else if offset == 0x303A {
        Some(SuperFxRegister::Scmr)
    } else if offset == 0x303B {
        Some(SuperFxRegister::Vcr)
    } else if offset == 0x303C {
        Some(SuperFxRegister::Rambr)
    } else if offset == 0x303E {
        Some(SuperFxRegister::CbrLow)
    } else if offset == 0x303F {
        Some(SuperFxRegister::CbrHigh)
    } else if 0x3100 <= offset && offset <= 0x32FF {
        Some(SuperFxRegister::Cache((offset - 0x3100) as usize))
    } else {
        None
    }
}

impl SuperFxCoprocessor {
    /// The state has the shape of [`superfx_shape`].
    pub open spec fn wf(&self) -> bool {
        superfx_shape(self@)
    }

    /// Build the SuperFX for a cartridge; it executes from a copy of the cartridge ROM.
    pub fn new(cartridge: &Cartridge) -> (s: Self)
        ensures
            s@ == initial_superfx(spec_superfx_map(*cartridge), cartridge.rom_view()),
            s.wf(),
    {
        let header = cartridge.header();
        let map = if header.mapper == Mapper::HiRom || header.rom_size_bytes() > 2 * 1024 * 1024 {
            SuperFxMap::SuperFx2
        } else {
            SuperFxMap::SuperFx1
        };
        let s = SuperFxCoprocessor {
            map,
            regs: [0; 16],
            sfr: 0,
            bramr: 0,
            pbr: 0,
            rombr: 0,
            cfgr: 0,
            scbr: 0,
            clsr: 0,
            scmr: 0,
            vcr: 0,
            rambr: 0,
            cbr: 0,
            cache: vec![0xFFu8; 0x200],
            cache_valid: vec![false; 0x20],
            running: false,
            cycles: 0,
            rom: vstd::slice::slice_to_vec(cartridge.rom()),
            ram: vec![0u8; 0x20000],
            overlay: vec![0u8; OVERLAY_BYTES],
            rom_buffer: 0,
            color_register: 0,
            alt1: false,
            alt2: false,
        };
        assert(s@.regs =~= Seq::new(16, |i: int| 0u16));
        assert(s@.cache =~= Seq::new(0x200, |i: int| 0xFFu8));
        assert(s@.cache_valid =~= Seq::new(0x20, |i: int| false));
        assert(s@.ram =~= Seq::new(0x20000, |i: int| 0u8));
        assert(s@.overlay =~= Seq::new(229376, |i: int| 0u8));
        s
    }

    /// Return to the power-on state, keeping the board layout and ROM.
    pub fn reset(&mut self)
        ensures
            final(self)@ == initial_superfx(old(self)@.map, old(self)@.rom),
            final(self).wf(),
    {
        self.regs = [0; 16];
        self.sfr = 0;
        self.bramr = 0;
        self.pbr = 0;
        self.rombr = 0;
        self.cfgr = 0;
        self.scbr = 0;
        self.clsr = 0;
        self.scmr = 0;
        self.vcr = 0;
        self.rambr = 0;
        self.cbr = 0;
        self.cache = vec![0xFFu8; 0x200];
        self.cache_valid = vec![false; 0x20];
        self.running = false;
        self.cycles = 0;
        self.ram = vec![0u8; 0x20000];
        self.overlay = vec![0u8; OVERLAY_BYTES];
        self.rom_buffer = 0;
        self.color_register = 0;
        self.alt1 = false;
        self.alt2 = false;
        assert(self@.regs =~= Seq::new(16, |i: int| 0u16));
        assert(self@.cache =~= Seq::new(0x200, |i: int| 0xFFu8));
        assert(self@.cache_valid =~= Seq::new(0x20, |i: int| false));
        assert(self@.ram =~= Seq::new(0x20000, |i: int| 0u8));
        assert(self@.overlay =~= Seq::new(229376, |i: int| 0u8));
    }

    /// Service a CPU read of the register window.
    pub fn read(&mut self, mapper: Mapper, address: u32) -> (r: Option<u8>)
        requires
            old(self).wf(),
        ensures
            final(self)@ == old(self)@,
            r == match spec_decode_superfx(address) {
                Some(register) => Some(spec_superfx_read(old(self)@, register)),
                None => None::<u8>,
            },
    {
        let _ = mapper;
        match decode_superfx(address) {
            Some(register) => Some(match register {
                SuperFxRegister::R(index, half) => {
                    let value = self.regs[index];
                    if half { (value / 256) as u8 } else { (value % 256) as u8 }
                },
                SuperFxRegister::SfrLow => (self.sfr % 256) as u8,
                SuperFxRegister::SfrHigh => (self.sfr / 256) as u8,
                SuperFxRegister::Bramr => self.bramr,
                SuperFxRegister::Pbr => self.pbr,
                SuperFxRegister::Rombr => self.rombr,
                SuperFxRegister::Cfgr => self.cfgr,
                SuperFxRegister::Scbr => self.scbr,
                SuperFxRegister::Clsr => self.clsr,
                SuperFxRegister::Scmr => self.scmr,
                SuperFxRegister::Vcr => self.vcr,
                SuperFxRegister::Rambr => self.rambr,
                SuperFxRegister::CbrLow => (self.cbr % 256) as u8,
                SuperFxRegister::CbrHigh => (self.cbr / 256) as u8,
                SuperFxRegister::Cache(offset) => self.cache[offset],
            }),
            None => None,
        }
    }

    /// Service a CPU write to the register window; writing the high byte of `R15` starts the
    /// GSU.
    pub fn write(&mut self, mapper: Mapper, address: u32, value: u8) -> (handled: bool)
        requires
            old(self).wf(),
        ensures
            final(self).wf(),
            handled == spec_decode_superfx(address) is Some,
            final(self)@ == match spec_decode_superfx(address) {
                Some(register) => spec_superfx_write(old(self)@, register, value),
                None => old(self)@,
            },
    {
        let _ = mapper;
        let register = match decode_superfx(address) {
            Some(register) => register,
            None => {
                return false;
            },
        };
        match register {
            SuperFxRegister::R(index, half) => {
                let current = self.regs[index];
                self.regs[index] = if half {
                    current % 256 + 256 * value as u16
                } else {
                    (current / 256) * 256 + value as u16
                };
                if index == 14 && half {
                    self.reload_rom_buffer();
                }
                if index == 15 && half {
                    self.running = true;
                    self.sfr = self.sfr | 0x20u16;
                }
            },
            SuperFxRegister::SfrLow => {
                let prior = self.sfr;
                self.sfr = (self.sfr / 256) * 256 + value as u16;
                if prior % 2 == 1 && self.sfr % 2 == 0 {
                    self.cbr = 0;
                    self.flush_cache();
                }
            },
            SuperFxRegister::SfrHigh => self.sfr = self.sfr % 256 + 256 * value as u16,
            SuperFxRegister::Bramr => self.bramr = value % 2,
            SuperFxRegister::Pbr => {
                self.pbr = value % 0x80;
                self.flush_cache();
            },
            SuperFxRegister::Rombr => {
                self.rombr = value % 0x80;
                self.reload_rom_buffer();
            },
            SuperFxRegister::Cfgr => self.cfgr = value,
            SuperFxRegister::Scbr => self.scbr = value,
            SuperFxRegister::Clsr => self.clsr = value % 2,
            SuperFxRegister::Scmr => self.scmr = value,
            SuperFxRegister::Vcr => self.vcr = value,
            SuperFxRegister::Rambr => self.rambr = value % 2,
            SuperFxRegister::CbrLow => self.cbr = (self.cbr / 256) * 256 + value as u16,
            SuperFxRegister::CbrHigh => self.cbr = self.cbr % 256 + 256 * value as u16,
            SuperFxRegister::Cache(offset) => self.cache.set(offset, value),
        }
        proof {
            assert(self@.regs =~= spec_superfx_write(old(self)@, register, value).regs);
        }
        true
    }

    fn flush_cache(&mut self)
        requires
            old(self).wf(),
        ensures
            final(self)@ == flushed(old(self)@),
            final(self).wf(),
    {
        self.cache_valid = vec![false; 0x20];
        assert(self.cache_valid@ =~= Seq::new(0x20, |i: int| false));
    }

    fn read_rom_byte(&self, address: u32) -> (b: u8)
        ensures
            b == spec_rom_byte(self@.rom, address),
    {
        if self.rom.len() == 0 {
            return 0xFF;
        }
        let bank = ((address / 0x10000) % 0x80) as usize;
        let offset = (address % 0x10000) as usize;
        let index = if bank <= 0x3F {
            if offset <= 0x7FFF { bank * 0x8000 + offset } else { bank * 0x8000 + (offset - 0x8000) }
        } else if bank <= 0x5F {
            (bank - 0x40) * 0x10000 + offset
        } else {
            offset
        };
        self.rom[index % self.rom.len()]
    }

    fn reload_rom_buffer(&mut self)
        ensures
            final(self)@ == reloaded(old(self)@),
    {
        let address = self.rombr as u32 * 0x10000 + self.regs[14] as u32;
        self.rom_buffer = self.read_rom_byte(address);
    }

    fn fetch(&mut self) -> (b: u8)
        requires
            old(self).wf(),
        ensures
            (final(self)@, b) == spec_fetch(old(self)@),
            final(self).wf(),
    {
        let address = self.pbr as u32 * 0x10000 + self.regs[15] as u32;
        self.regs[15] = self.regs[15].wrapping_add(1);
        let base = self.pbr as u32 * 0x10000 + self.cbr as u32;
        if base <= address && address < base + 0x200 {
            let cache_offset = (address - base) as usize;
            let line = cache_offset / 16;
            if !self.cache_valid[line] {
                let line_base = line * 16;
                let ghost before = self@;
                let mut k: usize = 0;
                while k < 16
                    invariant
                        k <= 16,
                        line_base + 16 <= 0x200,
                        self@ == (SuperFxView { cache: self@.cache, ..before }),
                        self@.cache.len() == 0x200,
                        forall|j: int| 0 <= j < 0x200 ==> #[trigger] self@.cache[j] == if line_base <= j < line_base + k {
                            spec_rom_byte(before.rom, cbr_address(before, j))
                        } else {
                            before.cache[j]
                        },
                    decreases 16 - k,
                {
                    let target = self.pbr as u32 * 0x10000 + ((self.cbr as u32 + (line_base + k) as u32) % 0x10000);
                    let byte = self.read_rom_byte(target);
                    self.cache.set(line_base + k, byte);
                    k = k + 1;
                }
                self.cache_valid.set(line, true);
                proof {
                    let expected = spec_fetch(old(self)@);
                    assert(self@.cache =~= expected.0.cache);
                }
            }
            self.cache[cache_offset]
        } else {
            self.read_rom_byte(address)
        }
    }

    fn plot_pixel(&mut self, x: u8, y: u8, color: u8)
        requires
            old(self).wf(),
        ensures
            final(self)@ == (SuperFxView { overlay: spec_plot(old(self)@.overlay, x, y, color), ..old(self)@ }),
            final(self).wf(),
    {
        if y as usize >= SUPERFX_HEIGHT {
            return;
        }
        let index = (y as usize * SUPERFX_WIDTH + x as usize) * 4;
        self.overlay.set(index, (color % 4) * 85);
        self.overlay.set(index + 1, ((color / 4) % 4) * 85);
        self.overlay.set(index + 2, ((color / 16) % 4) * 85);
        self.overlay.set(index + 3, 0xFF);
    }

    fn read_pixel(&self, x: u8, y: u8) -> (c: u8)
        requires
            self.wf(),
        ensures
            c == spec_read_pixel(self@.overlay, x, y),
    {
        if y as usize >= SUPERFX_HEIGHT {
            return 0;
        }
        let index = (y as usize * SUPERFX_WIDTH + x as usize) * 4;
        (self.overlay[index + 2] / 85) * 16 + (self.overlay[index + 1] / 85) * 4 + self.overlay[index] / 85
    }

    fn clear_prefixes(&mut self)
        ensures
            final(self)@ == unprefixed(old(self)@),
    {
        self.alt1 = false;
        self.alt2 = false;
    }

    fn stop(&mut self)
        ensures
            final(self)@ == stopped(old(self)@),
    {
        self.running = false;
        self.sfr = (self.sfr & !0x20u16) | 0x8000u16;
    }

    /// Execute one instruction and return its cycle cost.
    #[verifier::spinoff_prover]
    #[verifier::rlimit(100)]
    pub fn step_instruction(&mut self) -> (cost: u64)
        requires
            old(self).wf(),
        ensures
            (final(self)@, cost) == spec_step_instruction(old(self)@),
            final(self).wf(),
    {
        let opcode = self.fetch();
        if opcode == 0x00 {
            self.stop();
            2
        } else if opcode == 0x01 {
            2
        } else if opcode == 0x02 {
            self.cbr = self.regs[15] & 0xFFF0u16;
            self.flush_cache();
            2
        } else if opcode == 0x3D {
            self.alt1 = true;
            2
        } else if opcode == 0x3E {
            self.alt2 = true;
            2
        } else if opcode == 0x3F {
            self.alt1 = true;
            self.alt2 = true;
            2
        } else if opcode == 0x4C {
            if self.alt1 {
                let sample = self.read_pixel(self.regs[1] as u8, self.regs[2] as u8);
                self.regs[0] = sample as u16;
            } else {
                self.plot_pixel(self.regs[1] as u8, self.regs[2] as u8, self.color_register);
                self.regs[1] = self.regs[1].wrapping_add(1);
            }
            self.clear_prefixes();
            4
        } else if opcode == 0xDF {
            if !self.alt1 && !self.alt2 {
                self.color_register = self.rom_buffer;
            } else if self.alt1 && self.alt2 {
                self.rombr = (self.regs[0] % 0x80) as u8;
                self.reload_rom_buffer();
            } else if !self.alt1 && self.alt2 {
                self.rambr = (self.regs[0] % 2) as u8;
            } else {
                self.color_register = (self.rom_buffer / 16) % 16;
            }
            self.clear_prefixes();
            2
        } else if 0xD0 <= opcode && opcode <= 0xDE {
            let reg = (opcode % 16) as usize;
            self.regs[reg] = self.regs[reg].wrapping_add(1);
            self.clear_prefixes();
            2
        } else if 0xE0 <= opcode && opcode <= 0xEE {
            let reg = (opcode % 16) as usize;
            self.regs[reg] = self.regs[reg].wrapping_sub(1);
            self.clear_prefixes();
            2
        } else if opcode >= 0xF0 {
            let reg = (opcode % 16) as usize;
            let lo = self.fetch();
            let hi = self.fetch();
            self.regs[reg] = lo as u16 + 256 * hi as u16;
            if reg == 14 {
                self.reload_rom_buffer();
            }
            self.clear_prefixes();
            6
        } else {
            self.stop();
            self.clear_prefixes();
            2
        }
    }

    /// Let `clocks` master cycles elapse, running instructions while the GSU runs.
    pub fn step(&mut self, clocks: u64)
        requires
            old(self).wf(),
        ensures
            final(self).wf(),
            final(self)@ == spec_run(
                SuperFxView {
                    cycles: if old(self)@.cycles as int + clocks as int > u64::MAX { u64::MAX } else { (old(self)@.cycles + clocks) as u64 },
                    ..old(self)@
                },
                clocks,
            ),
    {
        self.cycles = self.cycles.saturating_add(clocks);
        let ghost start = self@;
        let mut remaining = clocks;
        while self.running && remaining > 0
            invariant
                self.wf(),
                spec_run(self@, remaining) == spec_run(start, clocks),
            decreases remaining,
        {
            let cost = self.step_instruction();
            if cost == 0 || cost > remaining {
                assert(spec_run(self@, 0) == self@);
                remaining = 0;
            } else {
                remaining = remaining - cost;
            }
        }
    }

    /// Copy every plotted overlay pixel (non-zero alpha) onto a frame.
    pub fn render_overlay(&self, framebuffer: &mut FrameBuffer)
        requires
            self.wf(),
            old(framebuffer).wf(),
        ensures
            final(framebuffer).wf(),
            final(framebuffer).pixels_view() == Seq::new(229376, |i: int|
                if self@.overlay[(i / 4) * 4 + 3] != 0 { self@.overlay[i] } else { old(framebuffer).pixels_view()[i] }),
    {
        let mut k: usize = 0;
        while k < SUPERFX_WIDTH * SUPERFX_HEIGHT
            invariant
                self.wf(),
                framebuffer.wf(),
                k <= 256 * 224,
                forall|j: int| 0 <= j < 229376 ==> #[trigger] framebuffer.pixels_view()[j] == if j < 4 * k && self@.overlay[(j / 4) * 4 + 3] != 0 {
                    self@.overlay[j]
                } else {
                    old(framebuffer).pixels_view()[j]
                },
            decreases 256 * 224 - k,
        {
            let index = k * 4;
            if self.overlay[index + 3] != 0 {
                let rgba = [self.overlay[index], self.overlay[index + 1], self.overlay[index + 2], self.overlay[index + 3]];
                framebuffer.set_pixel(k, rgba);
            }
            k = k + 1;
        }
        assert(framebuffer.pixels_view() =~= Seq::new(229376, |i: int|
            if self@.overlay[(i / 4) * 4 + 3] != 0 { self@.overlay[i] } else { old(framebuffer).pixels_view()[i] }));
    }
}

} // verus!
