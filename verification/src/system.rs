//! SNES system bus: WRAM, save RAM, coprocessor windows, MMIO, DMA/HDMA and joypad latching.
use vstd::prelude::*;

use crate::apu::{Apu, ApuView};
use crate::bus::{bus_steps, event_step, AccessKind, Address, Bus, BusEvent};
use crate::cartridge::{Cartridge, Mapper};
use crate::cartridge::header::spec_ram_size_bytes;
use crate::coprocessor::{Coprocessor, TrigTable, spec_kind};
use crate::dma::{DmaChannel, DmaController, mode_offsets, zero_channel};
use crate::error::{Error, Result};
use crate::input::ControllerState;
use crate::ppu::{FrameBuffer, Ppu, PpuView, power_on_ppu};
use crate::timing::{TimingState, advance_state, advance_events};

verus! {

const WRAM_SIZE: usize = 0x20000;

/// Serial and parallel joypad latch state.
#[derive(Debug, Clone, Copy, PartialEq, Eq, Structural)]
pub struct JoypadIo {
    /// Current controller-1 snapshot.
    pub controller1: ControllerState,
    /// Level of the latch line (`$4016` bit 0).
    pub latch_line: bool,
    /// Latched controller-1 bits.
    pub latched1: u16,
    /// Serial shift register for controller 1.
    pub shift1: u16,
}

/// Joypad state after latching the controller.
pub open spec fn joypad_latched(j: JoypadIo) -> JoypadIo {
    JoypadIo { latched1: j.controller1.spec_bits() as u16, shift1: j.controller1.spec_bits() as u16, ..j }
}

/// Joypad state after a write of `$4016`.
pub open spec fn joypad_after_strobe(j: JoypadIo, value: u8) -> JoypadIo {
    let next = value % 2 == 1;
    let j1 = if next { joypad_latched(j) } else if j.latch_line { JoypadIo { shift1: j.latched1, ..j } } else { j };
    JoypadIo { latch_line: next, ..j1 }
}

/// Joypad state and serial bit after a read of `$4016`.
pub open spec fn joypad_after_serial_read(j: JoypadIo) -> (JoypadIo, u8) {
    if j.latch_line {
        (j, (j.latched1 % 2) as u8)
    } else {
        (JoypadIo { shift1: (j.shift1 / 2 + 0x8000) as u16, ..j }, (j.shift1 % 2) as u8)
    }
}

fn latch_joypad(j: JoypadIo) -> (r: JoypadIo)
    ensures
        r == joypad_latched(j),
{
    let bits = j.controller1.to_bits();
    JoypadIo { latched1: bits, shift1: bits, ..j }
}

fn strobe_joypad(j: JoypadIo, value: u8) -> (r: JoypadIo)
    ensures
        r == joypad_after_strobe(j, value),
{
    let next = value % 2 == 1;
    let j1 = if next {
        latch_joypad(j)
    } else if j.latch_line {
        JoypadIo { shift1: j.latched1, ..j }
    } else {
        j
    };
    JoypadIo { latch_line: next, ..j1 }
}

fn serial_read_joypad(j: JoypadIo) -> (r: (JoypadIo, u8))
    ensures
        r == joypad_after_serial_read(j),
{
    if j.latch_line {
        (j, (j.latched1 % 2) as u8)
    } else {
        (JoypadIo { shift1: j.shift1 / 2 + 0x8000, ..j }, (j.shift1 % 2) as u8)
    }
}

/// WRAM index of the low-WRAM mirror: banks `$00-$3F` and `$80-$BF`, offsets below `$2000`.
pub open spec fn spec_low_wram_index(address: u32) -> Option<int> {
    let bank = (address as int / 0x10000) % 0x100;
    let offset = address as int % 0x10000;
    if (bank <= 0x3F || 0x80 <= bank <= 0xBF) && offset < 0x2000 { Some(offset) } else { None }
}

/// WRAM index of banks `$7E-$7F`.
pub open spec fn spec_high_wram_index(address: u32) -> Option<int> {
    let bank = (address as int / 0x10000) % 0x100;
    let offset = address as int % 0x10000;
    if bank == 0x7E { Some(offset) } else if bank == 0x7F { Some(0x10000 + offset) } else { None }
}

/// WRAM index an address selects, if any.
pub open spec fn spec_wram_index(address: u32) -> Option<int> {
    match spec_low_wram_index(address) {
        Some(i) => Some(i),
        None => spec_high_wram_index(address),
    }
}

/// Save-RAM index of a LoROM address: banks `$70-$7D` and `$F0-$FF`, offsets up to `$7FFF`.
pub open spec fn spec_lorom_save_index(address: u32, len: int) -> Option<int> {
    let bank = (address as int / 0x10000) % 0x100;
    let offset = address as int % 0x10000;
    if ((0x70 <= bank <= 0x7D) || 0xF0 <= bank) && offset <= 0x7FFF {
        Some((((bank % 0x80) - 0x70) * 0x8000 + offset) % len)
    } else {
        None
    }
}

/// Save-RAM index of a HiROM address: banks `$20-$3F` and `$A0-$BF`, offsets `$6000-$7FFF`.
pub open spec fn spec_hirom_save_index(address: u32, len: int) -> Option<int> {
    let bank = (address as int / 0x10000) % 0x100;
    let offset = address as int % 0x10000;
    if !(0x6000 <= offset <= 0x7FFF) {
        None
    } else if 0x20 <= bank <= 0x3F {
        Some(((bank - 0x20) * 0x2000 + (offset - 0x6000)) % len)
    } else if 0xA0 <= bank <= 0xBF {
        Some(((bank - 0xA0 + 0x20) * 0x2000 + (offset - 0x6000)) % len)
    } else {
        None
    }
}

/// Abstract state of the system bus.
pub struct SystemBusView {
    /// Installed cartridge.
    pub cartridge: Option<Cartridge>,
    /// Coprocessor of the installed cartridge.
    pub coprocessor: Option<Coprocessor>,
    /// Battery-backed RAM.
    pub save_ram: Seq<u8>,
    /// 128 KiB work RAM.
    pub wram: Seq<u8>,
    /// PPU state.
    pub ppu: PpuView,
    /// CPU-side APU communication ports.
    pub apu_io: Seq<u8>,
    /// DMA controller.
    pub dma: DmaController,
    /// Global timing.
    pub timing: TimingState,
    /// Last value seen on the data bus.
    pub open_bus: u8,
    /// Interrupt enable register (`$4200`).
    pub nmitimen: u8,
    /// NMI flag (`$4210` bit 7).
    pub rdnmi: bool,
    /// IRQ flag (`$4211` bit 7).
    pub timeup: bool,
    /// Joypad latch state.
    pub joypad: JoypadIo,
    /// WRAM port address (`$2181-$2183`).
    pub wram_address: u32,
    /// Tables handed to math coprocessors.
    pub trig: TrigTable,
}

/// A reset of the system bus from `old` gave `new`: cartridge, save RAM and tables kept; work
/// RAM, timing, interrupt and port state cleared; the PPU at power-on; the DMA controller
/// cleared; the installed coprocessor reset.
pub open spec fn reset_effect(old: SystemBusView, new: SystemBusView) -> bool {
    &&& new.cartridge == old.cartridge
    &&& new.save_ram == old.save_ram
    &&& new.wram == Seq::new(0x20000, |i: int| 0u8)
    &&& new.timing == (TimingState { master_clock: 0, scanline: 0, dot: 0, frame: 0 })
    &&& new.open_bus == 0
    &&& new.nmitimen == 0
    &&& !new.rdnmi
    &&& !new.timeup
    &&& new.joypad == idle_joypad()
    &&& new.wram_address == 0
    &&& new.apu_io == seq![0u8, 0, 0, 0]
    &&& new.ppu == power_on_ppu()
    &&& new.dma.channels_view() == Seq::new(8, |i: int| zero_channel())
    &&& new.dma.dma_mask() == 0
    &&& new.dma.hdma_mask() == 0
    &&& new.dma.transfers() == 0
    &&& match (old.coprocessor, new.coprocessor) {
        (Some(c), Some(n)) => c.reset_relation(n),
        (None, None) => true,
        _ => false,
    }
    &&& new.trig == old.trig
}

/// Save-RAM index an address selects on a bus, if any.
pub open spec fn spec_save_index(v: SystemBusView, address: u32) -> Option<int> {
    if v.save_ram.len() == 0 {
        None
    } else {
        match v.cartridge {
            None => None,
            Some(c) => match c.mapper_view() {
                Mapper::LoRom => spec_lorom_save_index(address, v.save_ram.len() as int),
                Mapper::HiRom => spec_hirom_save_index(address, v.save_ram.len() as int),
            },
        }
    }
}

/// No coprocessor can claim bus accesses.
pub open spec fn no_chip(v: SystemBusView) -> bool {
    v.coprocessor is None || v.cartridge is None
}

/// State and value after an MMIO read of `register`, or `None` for an unmapped register.
pub open spec fn spec_mmio_read(v: SystemBusView, register: u16) -> Option<(SystemBusView, u8)> {
    if 0x2100 <= register <= 0x213F {
        Some((v, v.ppu.read(register)))
    } else if 0x2140 <= register <= 0x2143 {
        Some((v, v.apu_io[register - 0x2140]))
    } else if register == 0x2180 {
        Some((SystemBusView { wram_address: ((v.wram_address + 1) % 0x20000) as u32, ..v },
            v.wram[v.wram_address as int % 0x20000]))
    } else if register == 0x4016 {
        let (j, bit) = joypad_after_serial_read(v.joypad);
        Some((SystemBusView { joypad: j, ..v }, ((v.open_bus & 0xFCu8) | bit) as u8))
    } else if register == 0x4017 {
        Some((v, v.open_bus & 0xFCu8))
    } else if register == 0x4210 {
        Some((SystemBusView { rdnmi: false, ..v }, (v.open_bus & 0x70u8) | (if v.rdnmi { 0x80u8 } else { 0 }) | 0x02u8))
    } else if register == 0x4211 {
        Some((SystemBusView { timeup: false, ..v }, (v.open_bus & 0x7Fu8) | (if v.timeup { 0x80u8 } else { 0 })))
    } else if register == 0x4212 {
        Some((v, (v.open_bus & 0x3Eu8) | (if v.timing.scanline >= 225 { 0x80u8 } else { 0 })
            | (if v.timing.dot == 0 { 0x40u8 } else { 0 })))
    } else if register == 0x4218 {
        Some((v, (v.joypad.latched1 % 256) as u8))
    } else if register == 0x4219 {
        Some((v, (v.joypad.latched1 / 256) as u8))
    } else if 0x4300 <= register <= 0x437F {
        Some((v, v.dma.spec_read_register((register - 0x4300) as u16)))
    } else {
        None
    }
}

/// State after an MMIO write of `register` that starts no DMA, or `None` for `$420B`, `$420C`
/// and unmapped registers.
pub open spec fn spec_plain_mmio_write(v: SystemBusView, register: u16, value: u8) -> Option<SystemBusView> {
    if 0x2100 <= register <= 0x213F {
        Some(SystemBusView { ppu: v.ppu.write(register, value), ..v })
    } else if 0x2140 <= register <= 0x2143 {
        Some(SystemBusView { apu_io: v.apu_io.update(register - 0x2140, value), ..v })
    } else if register == 0x2180 {
        Some(SystemBusView {
            wram: v.wram.update(v.wram_address as int % 0x20000, value),
            wram_address: ((v.wram_address + 1) % 0x20000) as u32,
            ..v
        })
    } else if register == 0x2181 {
        Some(SystemBusView { wram_address: ((v.wram_address as int / 256) * 256 + value as int) as u32, ..v })
    } else if register == 0x2182 {
        Some(SystemBusView {
            wram_address: ((v.wram_address as int / 0x10000) * 0x10000 + value as int * 256 + v.wram_address as int % 256) as u32,
            ..v
        })
    } else if register == 0x2183 {
        Some(SystemBusView {
            wram_address: ((v.wram_address as int / 0x20000) * 0x20000 + (value as int % 2) * 0x10000 + v.wram_address as int % 0x10000) as u32,
            ..v
        })
    } else if register == 0x4016 {
        Some(SystemBusView { joypad: joypad_after_strobe(v.joypad, value), ..v })
    } else if register == 0x4200 {
        Some(SystemBusView {
            nmitimen: value,
            rdnmi: if value >= 0x80 && v.nmitimen < 0x80 && v.timing.scanline >= 225 { true } else { v.rdnmi },
            ..v
        })
    } else {
        None
    }
}

/// Bus accesses never move time or replace the cartridge.
pub open spec fn keeps_frame(before: SystemBusView, after: SystemBusView) -> bool {
    after.timing == before.timing && after.cartridge == before.cartridge
        && (after.coprocessor is Some == before.coprocessor is Some)
}

/// CPU-visible system bus state.
#[derive(Debug)]
pub struct SystemBus {
    cartridge: Option<Cartridge>,
    coprocessor: Option<Coprocessor>,
    save_ram: Vec<u8>,
    wram: Vec<u8>,
    ppu: Ppu,
    apu_io: [u8; 4],
    dma: DmaController,
    timing: TimingState,
    open_bus: u8,
    nmitimen: u8,
    rdnmi: bool,
    timeup: bool,
    joypad: JoypadIo,
    wram_address: u32,
    trig: TrigTable,
}

impl View for SystemBus {
    type V = SystemBusView;

    closed spec fn view(&self) -> SystemBusView {
        SystemBusView {
            cartridge: self.cartridge,
            coprocessor: self.coprocessor,
            save_ram: self.save_ram@,
            wram: self.wram@,
            ppu: self.ppu@,
            apu_io: self.apu_io@,
            dma: self.dma,
            timing: self.timing,
            open_bus: self.open_bus,
            nmitimen: self.nmitimen,
            rdnmi: self.rdnmi,
            timeup: self.timeup,
            joypad: self.joypad,
            wram_address: self.wram_address,
            trig: self.trig,
        }
    }
}

/// The picture of a bus state: the PPU's frame with any coprocessor overlay drawn on it.
pub open spec fn rendered_frame(v: SystemBusView) -> Seq<u8> {
    match v.coprocessor {
        Some(c) => c.overlay_onto(v.ppu.frame()),
        None => v.ppu.frame(),
    }
}

/// Shape of every bus state: 128 KiB WRAM, a well-formed PPU and coprocessor, and a WRAM port
/// address inside WRAM.
pub open spec fn bus_shape(v: SystemBusView) -> bool {
    &&& v.wram.len() == 0x20000
    &&& v.apu_io.len() == 4
    &&& crate::ppu::ppu_shape(v.ppu)
    &&& (v.coprocessor matches Some(c) ==> c.wf())
    &&& v.wram_address < 0x20000
    &&& (v.cartridge matches Some(c) ==> v.save_ram.len() == spec_ram_size_bytes(c.header_view()))
}

/// The joypad state at power-on.
pub open spec fn idle_joypad() -> JoypadIo {
    JoypadIo {
        controller1: ControllerState {
            b: false, y: false, select: false, start: false, up: false, down: false, left: false,
            right: false, a: false, x: false, l: false, r: false,
        },
        latch_line: false,
        latched1: 0,
        shift1: 0,
    }
}

fn idle_joypad_exec() -> (j: JoypadIo)
    ensures
        j == idle_joypad(),
{
    JoypadIo {
        controller1: ControllerState {
            b: false, y: false, select: false, start: false, up: false, down: false, left: false,
            right: false, a: false, x: false, l: false, r: false,
        },
        latch_line: false,
        latched1: 0,
        shift1: 0,
    }
}

fn low_wram_mirror_index(address: u32) -> (r: Option<usize>)
    ensures
        match (r, spec_low_wram_index(address)) {
            (Some(i), Some(j)) => i as int == j && i < 0x2000,
            (None, None) => true,
            _ => false,
        },
{
    let bank = (address / 0x10000) % 0x100;
    let offset = address % 0x10000;
    if (bank <= 0x3F || (0x80 <= bank && bank <= 0xBF)) && offset < 0x2000 {
        Some(offset as usize)
    } else {
        None
    }
}

fn high_wram_index(address: u32) -> (r: Option<usize>)
    ensures
        match (r, spec_high_wram_index(address)) {
            (Some(i), Some(j)) => i as int == j && i < 0x20000,
            (None, None) => true,
            _ => false,
        },
{
    let bank = (address / 0x10000) % 0x100;
    let offset = (address % 0x10000) as usize;
    if bank == 0x7E {
        Some(offset)
    } else if bank == 0x7F {
        Some(0x10000 + offset)
    } else {
        None
    }
}

fn map_lorom_save_ram(address: u32, len: usize) -> (r: Option<usize>)
    requires
        len > 0,
    ensures
        match (r, spec_lorom_save_index(address, len as int)) {
            (Some(i), Some(j)) => i as int == j && i < len,
            (None, None) => true,
            _ => false,
        },
{
    let bank = ((address / 0x10000) % 0x100) as usize;
    let offset = (address % 0x10000) as usize;
    if ((0x70 <= bank && bank <= 0x7D) || 0xF0 <= bank) && offset <= 0x7FFF {
        Some((((bank % 0x80) - 0x70) * 0x8000 + offset) % len)
    } else {
        None
    }
}

fn map_hirom_save_ram(address: u32, len: usize) -> (r: Option<usize>)
    requires
        len > 0,
    ensures
        match (r, spec_hirom_save_index(address, len as int)) {
            (Some(i), Some(j)) => i as int == j && i < len,
            (None, None) => true,
            _ => false,
        },
{
    let bank = ((address / 0x10000) % 0x100) as usize;
    let offset = (address % 0x10000) as usize;
    if !(0x6000 <= offset && offset <= 0x7FFF) {
        None
    } else if 0x20 <= bank && bank <= 0x3F {
        Some(((bank - 0x20) * 0x2000 + (offset - 0x6000)) % len)
    } else if 0xA0 <= bank && bank <= 0xBF {
        Some(((bank - 0xA0 + 0x20) * 0x2000 + (offset - 0x6000)) % len)
    } else {
        None
    }
}

impl SystemBus {
    #[verifier::type_invariant]
    closed spec fn inv(self) -> bool {
        bus_shape(self@)
    }

    /// An empty bus: no cartridge, cleared memories and power-on registers.
    pub fn new() -> (b: Self)
        ensures
            b@.cartridge is None,
            b@.coprocessor is None,
            b@.save_ram.len() == 0,
            b@.wram == Seq::new(0x20000, |i: int| 0u8),
            b@.open_bus == 0,
            b@.nmitimen == 0,
            !b@.rdnmi,
            !b@.timeup,
            b@.joypad == idle_joypad(),
            b@.wram_address == 0,
            b@.timing == (TimingState { master_clock: 0, scanline: 0, dot: 0, frame: 0 }),
            b@.trig.sin_view().len() == 0,
    {
        let b = SystemBus {
            cartridge: None,
            coprocessor: None,
            save_ram: Vec::new(),
            wram: vec![0u8; WRAM_SIZE],
            ppu: Ppu::default(),
            apu_io: [0, 0, 0, 0],
            dma: DmaController::default(),
            timing: TimingState::default(),
            open_bus: 0,
            nmitimen: 0,
            rdnmi: false,
            timeup: false,
            joypad: idle_joypad_exec(),
            wram_address: 0,
            trig: TrigTable::empty(),
        };
        assert(b.wram@ =~= Seq::new(0x20000, |i: int| 0u8));
        b
    }

    /// Use trigonometric tables for the math coprocessors of cartridges installed from now on.
    pub fn set_trig_table(&mut self, trig: TrigTable)
        ensures
            final(self)@ == (SystemBusView { trig, ..old(self)@ }),
    {
        proof { use_type_invariant(&*self); }
        self.trig = trig;
    }

    /// Install or replace the loaded cartridge: save RAM is sized and cleared from the header
    /// and the coprocessor the header announces is created.
    pub fn install_cartridge(&mut self, cartridge: Cartridge)
        ensures
            final(self)@.cartridge == Some(cartridge),
            final(self)@.save_ram == Seq::new(spec_ram_size_bytes(cartridge.header_view()) as nat, |i: int| 0u8),
            final(self)@.coprocessor matches Some(c) ==> Some(spec_kind(c)) == crate::coprocessor::spec_detect(cartridge.header_view()),
            final(self)@.coprocessor is Some <==> (crate::coprocessor::spec_detect(cartridge.header_view()) is Some
                && !(crate::coprocessor::spec_detect(cartridge.header_view()) matches Some(crate::coprocessor::CoprocessorKind::Custom(_)))),
            final(self)@.wram == old(self)@.wram,
            final(self)@.ppu == old(self)@.ppu,
            final(self)@.timing == old(self)@.timing,
    {
        proof { use_type_invariant(&*self); }
        let save_len = cartridge.header().ram_size_bytes();
        let save_ram = vec![0u8; save_len];
        assert(save_ram@ =~= Seq::new(spec_ram_size_bytes(cartridge.header_view()) as nat, |i: int| 0u8));
        self.cartridge = None;
        self.save_ram = save_ram;
        self.coprocessor = Coprocessor::for_cartridge(&cartridge, &self.trig);
        self.cartridge = Some(cartridge);
    }

    /// Clear transient system state while keeping the current cartridge installed.
    pub fn reset(&mut self)
        ensures
            reset_effect(old(self)@, final(self)@),
    {
        proof { use_type_invariant(&*self); }
        let wram = vec![0u8; WRAM_SIZE];
        assert(wram@ =~= Seq::new(0x20000, |i: int| 0u8));
        self.wram = wram;
        let mut chip: Option<Coprocessor> = None;
        std::mem::swap(&mut chip, &mut self.coprocessor);
        match &mut chip {
            Some(c) => c.reset(),
            None => {},
        }
        self.coprocessor = chip;
        self.ppu = Ppu::default();
        self.apu_io = [0, 0, 0, 0];
        assert(self.apu_io@ =~= seq![0u8, 0, 0, 0]);
        self.dma = DmaController::default();
        self.timing = TimingState::default();
        self.open_bus = 0;
        self.nmitimen = 0;
        self.rdnmi = false;
        self.timeup = false;
        self.joypad = idle_joypad_exec();
        self.wram_address = 0;
    }

    /// Current global timing state.
    pub fn timing(&self) -> (t: &TimingState)
        ensures
            *t == self@.timing,
    {
        &self.timing
    }

    /// The PPU model.
    pub fn ppu(&self) -> (p: &Ppu)
        ensures
            p@ == self@.ppu,
            p.wf(),
    {
        proof { use_type_invariant(self); }
        &self.ppu
    }

    /// Render the current frame through the PPU, then any coprocessor overlay.
    pub fn render_frame(&self, framebuffer: &mut FrameBuffer)
        requires
            old(framebuffer).wf(),
        ensures
            final(framebuffer).wf(),
            final(framebuffer).pixels_view() == rendered_frame(self@),
    {
        proof { use_type_invariant(self); }
        self.ppu.render_frame(framebuffer);
        match &self.coprocessor {
            Some(c) => c.render_overlay(framebuffer),
            None => {},
        }
    }

    /// The installed cartridge, if any.
    pub fn cartridge(&self) -> (c: Option<&Cartridge>)
        ensures
            match (c, self@.cartridge) {
                (Some(a), Some(b)) => *a == b,
                (None, None) => true,
                _ => false,
            },
    {
        self.cartridge.as_ref()
    }

    /// The installed coprocessor, if the cartridge exposes one.
    pub fn coprocessor(&self) -> (c: Option<&Coprocessor>)
        ensures
            match (c, self@.coprocessor) {
                (Some(a), Some(b)) => *a == b,
                (None, None) => true,
                _ => false,
            },
    {
        self.coprocessor.as_ref()
    }

    /// Save-RAM byte count advertised by the installed cartridge, if any.
    pub fn save_ram_len(&self) -> (n: Option<usize>)
        ensures
            match self@.cartridge {
                Some(c) => n == Some(spec_ram_size_bytes(c.header_view()) as usize),
                None => n is None,
            },
    {
        match &self.cartridge {
            Some(c) => Some(c.header().ram_size_bytes()),
            None => None,
        }
    }

    /// Replace the battery-backed RAM image; the image must have the current save-RAM size.
    pub fn load_save_ram(&mut self, bytes: &[u8]) -> (r: Result<()>)
        ensures
            r is Ok <==> bytes@.len() == old(self)@.save_ram.len(),
            old(self)@.cartridge matches Some(c) ==> old(self)@.save_ram.len() == spec_ram_size_bytes(c.header_view()),
            r is Ok ==> final(self)@ == (SystemBusView { save_ram: bytes@, ..old(self)@ }),
            r matches Err(e) ==> final(self)@ == old(self)@ && e == (Error::InvalidSaveRam {
                expected: old(self)@.save_ram.len() as usize,
                actual: bytes@.len() as usize,
            }),
    {
        proof { use_type_invariant(&*self); }
        if bytes.len() != self.save_ram.len() {
            return Err(Error::InvalidSaveRam { expected: self.save_ram.len(), actual: bytes.len() });
        }
        let mut i: usize = 0;
        while i < bytes.len()
            invariant
                i <= bytes@.len(),
                self@.save_ram.len() == bytes@.len(),
                self@ == (SystemBusView { save_ram: self@.save_ram, ..old(self)@ }),
                forall|j: int| 0 <= j < i ==> self@.save_ram[j] == bytes@[j],
            decreases bytes@.len() - i,
        {
            proof { use_type_invariant(&*self); }
            self.save_ram[i] = bytes[i];
            i = i + 1;
        }
        assert(self@.save_ram =~= bytes@);
        Ok(())
    }

    /// The battery-backed RAM image.
    pub fn save_ram(&self) -> (s: &[u8])
        ensures
            s@ == self@.save_ram,
            self@.cartridge matches Some(c) ==> s@.len() == spec_ram_size_bytes(c.header_view()),
    {
        proof { use_type_invariant(self); }
        self.save_ram.as_slice()
    }

    /// Reset vector advertised by the installed cartridge, if any.
    pub fn reset_vector(&self) -> (r: Option<u16>)
        ensures
            match self@.cartridge {
                Some(c) => r == match (c.spec_read_byte(0x00FFFC), c.spec_read_byte(0x00FFFD)) {
                    (Some(lo), Some(hi)) => Some((lo as u16) | ((hi as u16) << 8u16)),
                    _ => None::<u16>,
                },
                None => r is None,
            },
    {
        match &self.cartridge {
            Some(c) => c.reset_vector(),
            None => None,
        }
    }

    /// Update the controller-1 snapshot; while the latch line is high it is latched at once.
    pub fn set_controller1(&mut self, state: ControllerState)
        ensures
            final(self)@ == (SystemBusView {
                joypad: if old(self)@.joypad.latch_line {
                    joypad_latched(JoypadIo { controller1: state, ..old(self)@.joypad })
                } else {
                    JoypadIo { controller1: state, ..old(self)@.joypad }
                },
                ..old(self)@
            }),
    {
        proof { use_type_invariant(&*self); }
        let mut j = self.joypad;
        j.controller1 = state;
        if j.latch_line {
            j = latch_joypad(j);
        }
        self.joypad = j;
    }

    /// Show the APU's outgoing port bytes at `$2140-$2143`.
    pub fn sync_apu_ports_from_runtime(&mut self, apu: &Apu)
        ensures
            final(self)@ == (SystemBusView { apu_io: apu@.apu_to_cpu, ..old(self)@ }),
    {
        proof { use_type_invariant(&*self); }
        self.apu_io = apu.apu_to_cpu_ports();
    }

    /// Hand the bytes at `$2140-$2143` to the APU as its incoming ports.
    pub fn sync_apu_ports_to_runtime(&self, apu: &mut Apu)
        ensures
            final(apu)@ == (ApuView { cpu_to_apu: self@.apu_io, ..old(apu)@ }),
    {
        apu.set_cpu_to_apu_ports(self.apu_io);
    }

    /// Whether NMI is enabled (`$4200` bit 7).
    pub fn nmi_enabled(&self) -> (r: bool)
        ensures
            r == (self@.nmitimen >= 0x80),
    {
        self.nmitimen >= 0x80
    }

    /// Whether one of the IRQ enable bits (`$4200` bits 4-5) is set.
    pub fn irq_enabled(&self) -> (r: bool)
        ensures
            r == (self@.nmitimen & 0x30 != 0),
    {
        self.nmitimen & 0x30 != 0
    }

    fn save_ram_index(&self, address: u32) -> (r: Option<usize>)
        ensures
            match (r, spec_save_index(self@, address)) {
                (Some(i), Some(j)) => i as int == j && i < self@.save_ram.len(),
                (None, None) => true,
                _ => false,
            },
    {
        let len = self.save_ram.len();
        if len == 0 {
            return None;
        }
        match &self.cartridge {
            None => None,
            Some(c) => match c.mapper() {
                Mapper::LoRom => map_lorom_save_ram(address, len),
                Mapper::HiRom => map_hirom_save_ram(address, len),
            },
        }
    }

    fn read_coprocessor(&mut self, address: u32) -> (r: Option<u8>)
        ensures
            no_chip(old(self)@) ==> r is None && final(self)@ == old(self)@,
            match (old(self)@.coprocessor, old(self)@.cartridge) {
                (Some(chip), Some(cart)) => final(self)@.coprocessor matches Some(next)
                    && chip.read_relation(next, cart.mapper_view(), address, r)
                    && final(self)@ == (SystemBusView { coprocessor: Some(next), ..old(self)@ }),
                _ => r is None && final(self)@ == old(self)@,
            },
            final(self)@.wram == old(self)@.wram,
            final(self)@.save_ram == old(self)@.save_ram,
            final(self)@.cartridge == old(self)@.cartridge,
            final(self)@.ppu == old(self)@.ppu,
            final(self)@.timing == old(self)@.timing,
            final(self)@.dma == old(self)@.dma,
            final(self)@.coprocessor is Some == old(self)@.coprocessor is Some,
            final(self)@.nmitimen == old(self)@.nmitimen,
    {
        proof { use_type_invariant(&*self); }
        let mapper = match &self.cartridge {
            Some(c) => c.mapper(),
            None => {
                return None;
            },
        };
        if self.coprocessor.is_none() {
            return None;
        }
        let mut chip: Option<Coprocessor> = None;
        std::mem::swap(&mut chip, &mut self.coprocessor);
        let r = match &mut chip {
            Some(c) => c.read(mapper, address),
            None => None,
        };
        self.coprocessor = chip;
        r
    }

    fn write_coprocessor(&mut self, address: u32, value: u8) -> (handled: bool)
        ensures
            no_chip(old(self)@) ==> !handled && final(self)@ == old(self)@,
            match (old(self)@.coprocessor, old(self)@.cartridge) {
                (Some(chip), Some(cart)) => final(self)@.coprocessor matches Some(next)
                    && chip.write_relation(next, cart.mapper_view(), address, value, handled)
                    && final(self)@ == (SystemBusView { coprocessor: Some(next), ..old(self)@ }),
                _ => !handled && final(self)@ == old(self)@,
            },
            final(self)@.wram == old(self)@.wram,
            final(self)@.save_ram == old(self)@.save_ram,
            final(self)@.cartridge == old(self)@.cartridge,
            final(self)@.ppu == old(self)@.ppu,
            final(self)@.timing == old(self)@.timing,
            final(self)@.dma == old(self)@.dma,
            final(self)@.open_bus == old(self)@.open_bus,
            final(self)@.coprocessor is Some == old(self)@.coprocessor is Some,
            final(self)@.nmitimen == old(self)@.nmitimen,
    {
        proof { use_type_invariant(&*self); }
        let mapper = match &self.cartridge {
            Some(c) => c.mapper(),
            None => {
                return false;
            },
        };
        if self.coprocessor.is_none() {
            return false;
        }
        let mut chip: Option<Coprocessor> = None;
        std::mem::swap(&mut chip, &mut self.coprocessor);
        let handled = match &mut chip {
            Some(c) => c.write(mapper, address, value),
            None => false,
        };
        self.coprocessor = chip;
        handled
    }

    fn read_mmio(&mut self, address: u32) -> (r: Option<u8>)
        ensures
            match spec_mmio_read(old(self)@, (address % 0x10000) as u16) {
                Some((next, value)) => r == Some(value) && final(self)@ == next,
                None => r is None && final(self)@ == old(self)@,
            },
    {
        proof { use_type_invariant(&*self); }
        let register = (address % 0x10000) as u16;
        if 0x2100 <= register && register <= 0x213F {
            Some(self.ppu.read_register(register))
        } else if 0x2140 <= register && register <= 0x2143 {
            Some(self.apu_io[(register - 0x2140) as usize])
        } else if register == 0x2180 {
            let value = self.wram[self.wram_address as usize % WRAM_SIZE];
            self.wram_address = (self.wram_address + 1) % 0x20000;
            Some(value)
        } else if register == 0x4016 {
            let (j, bit) = serial_read_joypad(self.joypad);
            self.joypad = j;
            Some((self.open_bus & 0xFC) | bit)
        } else if register == 0x4017 {
            Some(self.open_bus & 0xFC)
        } else if register == 0x4210 {
            let value = (self.open_bus & 0x70) | (if self.rdnmi { 0x80u8 } else { 0 }) | 0x02;
            self.rdnmi = false;
            Some(value)
        } else if register == 0x4211 {
            let value = (self.open_bus & 0x7F) | (if self.timeup { 0x80u8 } else { 0 });
            self.timeup = false;
            Some(value)
        } else if register == 0x4212 {
            Some((self.open_bus & 0x3E) | (if self.timing.in_vblank() { 0x80u8 } else { 0 })
                | (if self.timing.dot == 0 { 0x40u8 } else { 0 }))
        } else if register == 0x4218 {
            Some((self.joypad.latched1 % 256) as u8)
        } else if register == 0x4219 {
            Some((self.joypad.latched1 / 256) as u8)
        } else if 0x4300 <= register && register <= 0x437F {
            Some(self.dma.read_register(register - 0x4300))
        } else {
            None
        }
    }

    fn write_plain_mmio(&mut self, register: u16, value: u8) -> (handled: bool)
        ensures
            match spec_plain_mmio_write(old(self)@, register, value) {
                Some(next) => handled && final(self)@ == next,
                None => !handled && final(self)@ == old(self)@,
            },
    {
        proof { use_type_invariant(&*self); }
        if 0x2100 <= register && register <= 0x213F {
            self.ppu.write_register(register, value);
            true
        } else if 0x2140 <= register && register <= 0x2143 {
            self.apu_io[(register - 0x2140) as usize] = value;
            assert(self@.apu_io =~= old(self)@.apu_io.update(register - 0x2140, value));
            true
        } else if register == 0x2180 {
            let index = self.wram_address as usize % WRAM_SIZE;
            self.wram[index] = value;
            self.wram_address = (self.wram_address + 1) % 0x20000;
            true
        } else if register == 0x2181 {
            self.wram_address = (self.wram_address / 256) * 256 + value as u32;
            true
        } else if register == 0x2182 {
            self.wram_address = (self.wram_address / 0x10000) * 0x10000 + value as u32 * 256 + self.wram_address % 256;
            true
        } else if register == 0x2183 {
            self.wram_address = (self.wram_address / 0x20000) * 0x20000 + (value as u32 % 2) * 0x10000
                + self.wram_address % 0x10000;
            true
        } else if register == 0x4016 {
            self.joypad = strobe_joypad(self.joypad, value);
            true
        } else if register == 0x4200 {
            let nmi_was_enabled = self.nmitimen >= 0x80;
            self.nmitimen = value;
            if value >= 0x80 && !nmi_was_enabled && self.timing.in_vblank() {
                self.rdnmi = true;
            }
            true
        } else {
            false
        }
    }

    fn write_mmio(&mut self, address: u32, value: u8, nested: bool) -> (handled: bool)
        ensures
            nested ==> mmio_write_in_transfer(old(self)@, (address % 0x10000) as u16, value, final(self)@),
            !nested ==> mmio_write(old(self)@, (address % 0x10000) as u16, value, final(self)@),
            keeps_frame(old(self)@, final(self)@),
            ((nested || address % 0x10000 != 0x420B) && address % 0x10000 != 0x4200) ==> final(self)@.nmitimen == old(self)@.nmitimen,
            (address % 0x10000 < 0x4200 || address % 0x10000 > 0x437F) ==> final(self)@.dma == old(self)@.dma,
            handled <==> ({
                let register = (address % 0x10000) as u16;
                ||| register == 0x420B
                ||| register == 0x420C
                ||| 0x4300 <= register <= 0x437F
                ||| spec_plain_mmio_write(old(self)@, register, value) is Some
            }),
        decreases (if nested { 0int } else { 1int }), 2int,
    {
        proof { use_type_invariant(&*self); }
        let register = (address % 0x10000) as u16;
        if register == 0x420B {
            self.dma.set_dma_enable_mask(value);
            let ghost start = self@;
            if !nested {
                self.execute_dma(value);
                proof { use_type_invariant(&*self); }
            }
            let ghost ran = self@;
            self.dma.set_dma_enable_mask(0);
            proof {
                if !nested {
                    assert(dma_run(start, value, ran));
                }
            }
            true
        } else if register == 0x420C {
            self.dma.set_hdma_enable_mask(value);
            if self.timing.frame == 0 && self.timing.scanline == 0 && self.timing.dot == 0 {
                self.initialize_hdma_channels();
                proof { use_type_invariant(&*self); }
            }
            let mask = self.dma.hdma_enable_mask();
            if mask != value {
                self.dma.set_hdma_enable_mask(value);
            }
            true
        } else if 0x4300 <= register && register <= 0x437F {
            self.dma.write_register(register - 0x4300, value);
            true
        } else {
            self.write_plain_mmio(register, value)
        }
    }

    fn execute_dma(&mut self, mask: u8)
        ensures
            keeps_frame(old(self)@, final(self)@),
            dma_run(old(self)@, mask, final(self)@),
        decreases 1int, 1int,
    {
        proof { use_type_invariant(&*self); }
        let mut channel_index: usize = 0;
        let ghost mut vs: Seq<SystemBusView> = seq![self@];
        while channel_index < 8
            invariant
                keeps_frame(old(self)@, self@),
                channel_index <= 8,
                vs.len() == channel_index + 1,
                vs[0] == old(self)@,
                vs.last() == self@,
                forall|i: int| 0 <= i < channel_index ==> #[trigger] dma_slot(vs[i], mask, i, vs[i + 1]),
            decreases 8 - channel_index,
        {
            proof { use_type_invariant(&*self); }
            let ghost before = self@;
            if (mask >> (channel_index as u8)) & 1 == 1 {
                self.run_dma_channel(channel_index);
                proof { use_type_invariant(&*self); }
            }
            proof {
                assert(dma_slot(before, mask, channel_index as int, self@));
                let old_vs = vs;
                vs = vs.push(self@);
                assert forall|i: int| 0 <= i < channel_index + 1 implies #[trigger] dma_slot(vs[i], mask, i, vs[i + 1]) by {
                    if i < channel_index {
                        assert(vs[i] == old_vs[i] && vs[i + 1] == old_vs[i + 1]);
                    }
                }
            }
            channel_index = channel_index + 1;
        }
        assert(dma_run(old(self)@, mask, self@));
    }

    fn run_dma_channel(&mut self, channel_index: usize)
        requires
            channel_index < 8,
        ensures
            keeps_frame(old(self)@, final(self)@),
            dma_channel_run(old(self)@, channel_index as int, final(self)@),
        decreases 1int, 0int,
    {
        proof { use_type_invariant(&*self); }
        let mut channel = match self.dma.channel(channel_index) {
            Some(c) => *c,
            None => DmaChannel::default(),
        };
        let ghost v0 = self@;
        let ghost c = channel;
        assert(c == v0.dma.channels_view()[channel_index as int]);
        let pattern = DmaController::b_bus_offsets_for_mode(channel.transfer_mode());
        let mut a_bus_address = channel.a_bus_address;
        let transfer_length = channel.dma_length();
        let mut offset_index: usize = 0;
        let ghost mut states: Seq<SystemBusView> = seq![self@];
        assert(a_bus_address == dma_a_address(c, 0)) by {
            assert((c.a_bus_address as int - 0) % 0x10000 == c.a_bus_address as int);
            assert((c.a_bus_address as int + 0) % 0x10000 == c.a_bus_address as int);
        }
        while offset_index < transfer_length
            invariant
                pattern@ == mode_offsets(c.control & 0x07),
                pattern@.len() >= 1,
                transfer_length == dma_byte_total(c),
                transfer_length <= 0x10000,
                channel == c,
                offset_index <= transfer_length,
                a_bus_address == dma_a_address(c, offset_index as int),
                keeps_frame(old(self)@, self@),
                states.len() == offset_index + 1,
                states[0] == v0,
                states.last() == self@,
                v0 == old(self)@,
                forall|k: int| 0 <= k < offset_index ==> dma_byte_moved(#[trigger] states[k], c, k, states[k + 1]),
            decreases transfer_length - offset_index,
        {
            proof { use_type_invariant(&*self); }
            let ghost before = self@;
            let ghost k = offset_index as int;
            let a_full = channel.a_bus_bank as u32 * 0x10000 + a_bus_address as u32;
            let b_full = 0x002100u32 + channel.b_bus_address as u32 + pattern[offset_index % pattern.len()] as u32;
            assert(a_full == dma_a_full(c, k));
            assert(b_full == dma_b_full(c, k));
            if channel.reverse_transfer() {
                let value = self.read(b_full);
                let ghost mid = self@;
                proof { use_type_invariant(&*self); }
                self.bus_write(a_full, value, true);
                proof { use_type_invariant(&*self); }
                assert(read_effect(before, dma_source(c, k), value, mid));
                assert(write_effect_in_transfer(mid, dma_target(c, k), value, self@));
            } else {
                let value = self.read(a_full);
                let ghost mid = self@;
                proof { use_type_invariant(&*self); }
                self.bus_write(b_full, value, true);
                proof { use_type_invariant(&*self); }
                assert(read_effect(before, dma_source(c, k), value, mid));
                assert(write_effect_in_transfer(mid, dma_target(c, k), value, self@));
            }
            assert(dma_byte_moved(before, c, k, self@));
            if !channel.fixed_transfer() {
                a_bus_address = if channel.decrement_transfer() {
                    a_bus_address.wrapping_sub(1)
                } else {
                    a_bus_address.wrapping_add(1)
                };
            }
            proof {
                lemma_dma_a_address_step(c, k);
                let old_states = states;
                states = states.push(self@);
                assert forall|q: int| 0 <= q < k + 1 implies dma_byte_moved(#[trigger] states[q], c, q, states[q + 1]) by {
                    if q < k {
                        assert(states[q] == old_states[q] && states[q + 1] == old_states[q + 1]);
                    }
                }
            }
            offset_index = offset_index + 1;
        }
        proof { use_type_invariant(&*self); }
        let ghost last = self@;
        assert(dma_states(v0, c, states));
        channel.a_bus_address = a_bus_address;
        channel.byte_count = 0;
        self.dma.add_transfers(transfer_length as u64);
        self.dma.set_channel(channel_index, channel);
        assert(channel == (DmaChannel { a_bus_address: dma_a_address(c, dma_byte_total(c) as int), byte_count: 0, ..c }));
        assert(self@ == (SystemBusView { dma: self@.dma, ..last }));
        assert(dma_channel_run(old(self)@, channel_index as int, self@));
    }

    fn initialize_hdma_channels(&mut self)
        ensures
            keeps_frame(old(self)@, final(self)@),
            final(self)@.nmitimen == old(self)@.nmitimen,
            final(self)@.dma.hdma_mask() == old(self)@.dma.hdma_mask(),
            final(self)@.dma.dma_mask() == old(self)@.dma.dma_mask(),
            old(self)@.dma.hdma_mask() == 0 ==> final(self)@ == (SystemBusView { dma: final(self)@.dma, ..old(self)@ }),
            hdma_init_run(old(self)@, old(self)@.dma.hdma_mask(), final(self)@),
    {
        let mask = self.dma.hdma_enable_mask();
        let mut channel_index: usize = 0;
        let ghost mut vs: Seq<SystemBusView> = seq![self@];
        while channel_index < 8
            invariant
                keeps_frame(old(self)@, self@),
                self@.nmitimen == old(self)@.nmitimen,
                self@.dma.hdma_mask() == old(self)@.dma.hdma_mask(),
                self@.dma.dma_mask() == old(self)@.dma.dma_mask(),
                mask == old(self)@.dma.hdma_mask(),
                channel_index <= 8,
                vs.len() == channel_index + 1,
                vs[0] == old(self)@,
                vs.last() == self@,
                forall|i: int| 0 <= i < channel_index ==> #[trigger] hdma_init_slot(vs[i], mask, i, vs[i + 1]),
                mask == 0 ==> self@ == (SystemBusView { dma: self@.dma, ..old(self)@ }),
            decreases 8 - channel_index,
        {
            proof { use_type_invariant(&*self); }
            let shift = channel_index as u8;
            assert(mask == 0 ==> (mask >> shift) & 1 == 0) by (bit_vector);
            let existing = match self.dma.channel(channel_index) {
                Some(c) => *c,
                None => DmaChannel::default(),
            };
            let mut channel = existing;
            let ghost before = self@;
            if (mask >> (channel_index as u8)) & 1 == 0 {
                channel.hdma_active = false;
                self.dma.set_channel(channel_index, channel);
                assert(channel_set(before, channel_index as int, channel, self@));
            } else {
                channel.hdma_table_address = channel.a_bus_address;
                channel.hdma_active = true;
                let ghost start = channel;
                self.reload_hdma_block(&mut channel);
                proof { use_type_invariant(&*self); }
                let ghost v1 = self@;
                self.dma.set_channel(channel_index, channel);
                assert(hdma_reload(before, start, v1, channel));
                assert(channel_set(v1, channel_index as int, channel, self@));
            }
            assert(hdma_init_slot(before, mask, channel_index as int, self@));
            proof {
                let old_vs = vs;
                vs = vs.push(self@);
                assert forall|i: int| 0 <= i < channel_index + 1 implies #[trigger] hdma_init_slot(vs[i], mask, i, vs[i + 1]) by {
                    if i < channel_index {
                        assert(vs[i] == old_vs[i] && vs[i + 1] == old_vs[i + 1]);
                    }
                }
            }
            channel_index = channel_index + 1;
        }
        assert(hdma_init_run(old(self)@, mask, self@));
    }

    fn step_hdma_for_scanline(&mut self)
        ensures
            keeps_frame(old(self)@, final(self)@),
            final(self)@.nmitimen == old(self)@.nmitimen,
            old(self)@.dma.hdma_mask() == 0 ==> final(self)@ == old(self)@,
            old(self)@.timing.spec_in_vblank() ==> final(self)@ == old(self)@,
            !old(self)@.timing.spec_in_vblank() ==> hdma_line_run(old(self)@, old(self)@.dma.hdma_mask(), final(self)@),
    {
        if self.timing.in_vblank() {
            return;
        }
        let mask = self.dma.hdma_enable_mask();
        let mut channel_index: usize = 0;
        let ghost mut vs: Seq<SystemBusView> = seq![self@];
        while channel_index < 8
            invariant
                keeps_frame(old(self)@, self@),
                self@.nmitimen == old(self)@.nmitimen,
                mask == old(self)@.dma.hdma_mask(),
                mask == 0 ==> self@ == old(self)@,
                channel_index <= 8,
                vs.len() == channel_index + 1,
                vs[0] == old(self)@,
                vs.last() == self@,
                forall|i: int| 0 <= i < channel_index ==> #[trigger] hdma_line_slot(vs[i], mask, i, vs[i + 1]),
            decreases 8 - channel_index,
        {
            proof { use_type_invariant(&*self); }
            let ghost before = self@;
            let shift = channel_index as u8;
            assert(mask == 0 ==> (mask >> shift) & 1 == 0) by (bit_vector);
            if (mask >> (channel_index as u8)) & 1 == 1 {
                let existing = match self.dma.channel(channel_index) {
                    Some(c) => *c,
                    None => DmaChannel::default(),
                };
                let mut channel = existing;
                if channel.hdma_active && channel.hdma_line_counter != 0 {
                    let ghost c = channel;
                    if !channel.hdma_repeat {
                        self.perform_hdma_transfer(&mut channel);
                        proof { use_type_invariant(&*self); }
                    }
                    let ghost v1 = self@;
                    let ghost c1 = channel;
                    assert(hdma_line_first(before, c, v1, c1));
                    channel.hdma_line_counter = if channel.hdma_line_counter > 0 { channel.hdma_line_counter - 1 } else { 0 };
                    let ghost cd = channel;
                    assert(cd == (DmaChannel { hdma_line_counter: (c1.hdma_line_counter - 1) as u8, ..c1 }));
                    if channel.hdma_line_counter == 0 {
                        self.reload_hdma_block(&mut channel);
                        proof { use_type_invariant(&*self); }
                        let ghost v3 = self@;
                        self.dma.set_channel(channel_index, channel);
                        assert(hdma_reload(v1, cd, v3, channel));
                        assert(channel_set(v3, channel_index as int, channel, self@));
                    } else {
                        channel.hdma_repeat = false;
                        self.dma.set_channel(channel_index, channel);
                        assert(channel_set(v1, channel_index as int, channel, self@));
                    }
                    assert(hdma_line_rest(v1, c1, channel_index as int, self@));
                }
            }
            assert(hdma_line_slot(before, mask, channel_index as int, self@));
            proof {
                let old_vs = vs;
                vs = vs.push(self@);
                assert forall|i: int| 0 <= i < channel_index + 1 implies #[trigger] hdma_line_slot(vs[i], mask, i, vs[i + 1]) by {
                    if i < channel_index {
                        assert(vs[i] == old_vs[i] && vs[i + 1] == old_vs[i + 1]);
                    }
                }
            }
            channel_index = channel_index + 1;
        }
        assert(hdma_line_run(old(self)@, mask, self@));
    }

    fn reload_hdma_block(&mut self, channel: &mut DmaChannel)
        ensures
            keeps_frame(old(self)@, final(self)@),
            final(self)@.nmitimen == old(self)@.nmitimen,
            final(self)@.dma == old(self)@.dma,
            hdma_reload(old(self)@, *old(channel), final(self)@, *final(channel)),
    {
        let ghost v0 = self@;
        let ghost c0 = *channel;
        let table_full = channel.a_bus_bank as u32 * 0x10000 + channel.hdma_table_address as u32;
        let line_descriptor = self.read(table_full);
        proof { use_type_invariant(&*self); }
        let ghost v1 = self@;
        assert(read_effect(v0, hdma_table_full(c0, c0.hdma_table_address), line_descriptor, v1));
        proof { lemma_wrap16_step(c0.hdma_table_address as int, 0); }
        assert(wrap16(c0.hdma_table_address as int + 0) == c0.hdma_table_address) by {
            assert((c0.hdma_table_address as int + 0) % 0x10000 == c0.hdma_table_address as int);
        }
        channel.hdma_table_address = channel.hdma_table_address.wrapping_add(1);
        let ghost t1 = channel.hdma_table_address;
        assert(t1 == wrap16(c0.hdma_table_address + 1));
        if line_descriptor == 0 {
            channel.hdma_active = false;
            channel.hdma_line_counter = 0;
            channel.hdma_repeat = false;
            assert(hdma_reload_after(v1, c0, line_descriptor, self@, *channel));
            return;
        }
        channel.hdma_active = true;
        channel.hdma_line_counter = line_descriptor & 0x7F;
        channel.hdma_repeat = line_descriptor & 0x80 != 0;
        if channel.hdma_indirect() {
            let low = self.read(channel.a_bus_bank as u32 * 0x10000 + channel.hdma_table_address as u32);
            proof { use_type_invariant(&*self); }
            let ghost va = self@;
            proof { lemma_wrap16_step(c0.hdma_table_address as int, 1); }
            channel.hdma_table_address = channel.hdma_table_address.wrapping_add(1);
            let ghost t2 = channel.hdma_table_address;
            assert(t2 == wrap16(t1 + 1));
            let high = self.read(channel.a_bus_bank as u32 * 0x10000 + channel.hdma_table_address as u32);
            proof { use_type_invariant(&*self); }
            proof { lemma_wrap16_step(c0.hdma_table_address as int, 2); }
            channel.hdma_table_address = channel.hdma_table_address.wrapping_add(1);
            assert(channel.hdma_table_address == wrap16(t2 + 1));
            channel.indirect_address = low as u16 + 256 * high as u16;
            channel.hdma_data_address = channel.indirect_address;
            assert(read_effect(v1, hdma_table_full(c0, t1), low, va));
            assert(read_effect(va, hdma_table_full(c0, t2), high, self@));
            assert(hdma_reload_after(v1, c0, line_descriptor, self@, *channel));
        } else {
            channel.hdma_data_address = channel.hdma_table_address;
            assert(hdma_reload_after(v1, c0, line_descriptor, self@, *channel));
        }
    }

    /// Move one HDMA byte from `source` to `target` and count it.
    fn hdma_move(&mut self, source: u32, target: u32)
        requires
            0x2100 <= target < 0x2300,
        ensures
            keeps_frame(old(self)@, final(self)@),
            final(self)@.nmitimen == old(self)@.nmitimen,
            final(self)@.dma.hdma_mask() == old(self)@.dma.hdma_mask(),
            hdma_move_effect(old(self)@, source, target, final(self)@),
    {
        let value = self.read(source);
        proof { use_type_invariant(&*self); }
        let ghost m1 = self@;
        self.bus_write(target, value, false);
        proof { use_type_invariant(&*self); }
        let ghost m2 = self@;
        self.dma.add_transfers(1);
        assert(read_effect(old(self)@, source, value, m1));
        assert(write_effect(m1, target, value, m2));
    }

    #[verifier::rlimit(100)]
    #[verifier::spinoff_prover]
    fn perform_hdma_transfer(&mut self, channel: &mut DmaChannel)
        ensures
            keeps_frame(old(self)@, final(self)@),
            final(self)@.nmitimen == old(self)@.nmitimen,
            final(channel).hdma_line_counter == old(channel).hdma_line_counter,
            final(channel).hdma_active == old(channel).hdma_active,
            final(channel).hdma_repeat == old(channel).hdma_repeat,
            final(self)@.dma.hdma_mask() == old(self)@.dma.hdma_mask(),
            hdma_transfer(old(self)@, *old(channel), final(self)@, *final(channel)),
    {
        let ghost v0 = self@;
        let ghost c0 = *channel;
        let pattern = DmaController::b_bus_offsets_for_mode(channel.transfer_mode());
        assert(forall|j: int| 0 <= j < pattern@.len() ==> pattern@[j] <= 3);
        let ghost mut states: Seq<SystemBusView> = seq![self@];
        assert(wrap16(c0.hdma_data_address as int + 0) == c0.hdma_data_address) by {
            assert((c0.hdma_data_address as int + 0) % 0x10000 == c0.hdma_data_address as int);
        }
        let mut k: usize = 0;
        while k < pattern.len()
            invariant
                forall|j: int| 0 <= j < pattern@.len() ==> pattern@[j] <= 3,
                pattern@ == mode_offsets(c0.control & 0x07),
                k <= pattern@.len(),
                keeps_frame(old(self)@, self@),
                self@.nmitimen == old(self)@.nmitimen,
                self@.dma.hdma_mask() == old(self)@.dma.hdma_mask(),
                *channel == (DmaChannel { hdma_data_address: wrap16(c0.hdma_data_address + k), ..c0 }),
                c0 == *old(channel),
                v0 == old(self)@,
                states.len() == k + 1,
                states[0] == v0,
                states.last() == self@,
                forall|q: int| 0 <= q < k ==> hdma_byte_moved(#[trigger] states[q], c0, q, states[q + 1]),
            decreases pattern@.len() - k,
        {
            proof { use_type_invariant(&*self); }
            let ghost before = self@;
            let source_address = channel.a_bus_bank as u32 * 0x10000 + channel.hdma_data_address as u32;
            let target_address = 0x002100u32 + channel.b_bus_address as u32 + pattern[k] as u32;
            assert(source_address == hdma_source(c0, k as int));
            assert(target_address == hdma_target(c0, k as int));
            self.hdma_move(source_address, target_address);
            proof { use_type_invariant(&*self); }
            proof { lemma_wrap16_step(c0.hdma_data_address as int, k as int); }
            channel.hdma_data_address = channel.hdma_data_address.wrapping_add(1);
            assert(hdma_byte_moved(before, c0, k as int, self@));
            proof {
                lemma_moves_extend(states, c0, k as int, self@);
                states = states.push(self@);
            }
            k = k + 1;
        }
        if !channel.hdma_indirect() {
            channel.hdma_table_address = channel.hdma_data_address;
        }
        assert(hdma_states(v0, c0, states));
        assert(hdma_transfer(v0, c0, self@, *channel));
    }

    /// Advance global timing, step the coprocessor, run HDMA at frame and scanline boundaries,
    /// and raise the NMI and IRQ flags the timing calls for.
    pub fn advance_master_clocks(&mut self, clocks: u64)
        ensures
            final(self)@.timing == advance_state(old(self)@.timing, clocks as nat),
            advance_events(old(self)@.timing, clocks as nat).entered_vblank ==> final(self)@.rdnmi,
            advance_events(old(self)@.timing, clocks as nat).crossed_scanline && old(self)@.nmitimen & 0x30 != 0
                ==> final(self)@.timeup,
            final(self)@.nmitimen == old(self)@.nmitimen,
            final(self)@.cartridge == old(self)@.cartridge,
            advance_effect(old(self)@, clocks, final(self)@),
            (old(self)@.dma.hdma_mask() == 0 && old(self)@.coprocessor is None) ==> final(self)@ == (SystemBusView {
                timing: advance_state(old(self)@.timing, clocks as nat),
                rdnmi: old(self)@.rdnmi || advance_events(old(self)@.timing, clocks as nat).entered_vblank,
                timeup: old(self)@.timeup || (advance_events(old(self)@.timing, clocks as nat).crossed_scanline
                    && old(self)@.nmitimen & 0x30 != 0),
                dma: final(self)@.dma,
                ..old(self)@
            }),
    {
        proof { use_type_invariant(&*self); }
        let events = self.timing.advance_master_clocks(clocks);
        let ghost after_timing = self@;
        let mut chip: Option<Coprocessor> = None;
        std::mem::swap(&mut chip, &mut self.coprocessor);
        match &mut chip {
            Some(c) => c.step_master_cycles(clocks),
            None => {},
        }
        self.coprocessor = chip;
        let ghost v1 = self@;
        assert(chip_stepped(after_timing, clocks, v1));
        if events.started_new_frame {
            self.initialize_hdma_channels();
            proof { use_type_invariant(&*self); }
        }
        let ghost v2 = self@;
        assert(hdma_frame_start(v1, events.started_new_frame, v2));
        if events.crossed_scanline {
            self.step_hdma_for_scanline();
            proof { use_type_invariant(&*self); }
        }
        let ghost v3 = self@;
        assert(hdma_scanline(v2, events.crossed_scanline, v3));
        if events.entered_vblank {
            self.rdnmi = true;
        }
        if events.crossed_scanline && self.nmitimen & 0x30 != 0 {
            self.timeup = true;
        }
    }
}

impl Default for SystemBus {
    fn default() -> (b: Self)
        ensures
            b@.cartridge is None,
            b@.coprocessor is None,
            b@.wram == Seq::new(0x20000, |i: int| 0u8),
            b@.open_bus == 0,
    {
        SystemBus::new()
    }
}

/// Where a read lands when neither RAM nor a chip answered: MMIO, then cartridge ROM, else
/// the open-bus value; the byte read becomes the open-bus value.
pub open spec fn plain_read_effect(v: SystemBusView, a: u32, value: u8, new: SystemBusView) -> bool {
    match spec_mmio_read(v, (a % 0x10000) as u16) {
        Some((next, x)) => value == x && new == (SystemBusView { open_bus: value, ..next }),
        None => value == match v.cartridge {
            Some(c) => match c.spec_read_byte(a) { Some(b) => b, None => v.open_bus },
            None => v.open_bus,
        } && new == (SystemBusView { open_bus: value, ..v }),
    }
}

/// A read of `address` that returned `value` took the bus from `old` to `new`: WRAM (and its
/// mirrors), then save RAM, then the enhancement chip's window, then MMIO, then cartridge ROM,
/// else the open-bus value; the byte read becomes the open-bus value.
pub open spec fn read_effect(old: SystemBusView, address: u32, value: u8, new: SystemBusView) -> bool {
    let a = address % 0x100_0000;
    match spec_wram_index(a) {
        Some(i) => value == old.wram[i] && new == (SystemBusView { open_bus: value, ..old }),
        None => match spec_save_index(old, a) {
            Some(i) => value == old.save_ram[i] && new == (SystemBusView { open_bus: value, ..old }),
            None => match (old.coprocessor, old.cartridge) {
                (Some(chip), Some(cart)) => exists|next: Coprocessor, answer: Option<u8>|
                    #[trigger] chip.read_relation(next, cart.mapper_view(), a, answer) && match answer {
                        Some(x) => value == x && new == (SystemBusView { coprocessor: Some(next), open_bus: value, ..old }),
                        None => plain_read_effect(SystemBusView { coprocessor: Some(next), ..old }, a, value, new),
                    },
                _ => plain_read_effect(old, a, value, new),
            },
        },
    }
}

/// `d2` is the controller `d1` with its DMA enable mask set to `mask`.
pub open spec fn with_dma_mask(d1: DmaController, d2: DmaController, mask: u8) -> bool {
    &&& d2.channels_view() == d1.channels_view()
    &&& d2.hdma_mask() == d1.hdma_mask()
    &&& d2.transfers() == d1.transfers()
    &&& d2.dma_mask() == mask
}

/// What an MMIO write of `value` to `register` does, apart from the `$420B` DMA start: a
/// plain register takes the value, `$420C` sets the HDMA mask, `$4300-$437F` write channel
/// registers, and any other register ignores the write.
pub open spec fn mmio_write_common(at: SystemBusView, register: u16, value: u8, new: SystemBusView) -> bool {
    &&& spec_plain_mmio_write(at, register, value) matches Some(next) ==> new == next
    &&& register == 0x420C ==> new.dma.hdma_mask() == value
    &&& 0x4300 <= register <= 0x437F ==> new == (SystemBusView { dma: new.dma, ..at })
        && new.dma.channels_view() == at.dma.channels_after_write((register - 0x4300) as u16, value)
    &&& (spec_plain_mmio_write(at, register, value) is None && register != 0x420B
        && register != 0x420C && !(0x4300 <= register <= 0x437F)) ==> new == at
}

/// An MMIO write made by a DMA transfer: a `$420B` write only latches and clears the enable mask.
pub open spec fn mmio_write_in_transfer(at: SystemBusView, register: u16, value: u8, new: SystemBusView) -> bool {
    &&& mmio_write_common(at, register, value, new)
    &&& register == 0x420B ==> new == (SystemBusView { dma: new.dma, ..at }) && with_dma_mask(at.dma, new.dma, 0)
}

/// A write made by a DMA transfer: the value becomes the open-bus value, then WRAM (and its
/// mirrors), save RAM, the enhancement chip's window and MMIO are tried in turn.
pub open spec fn write_effect_in_transfer(old: SystemBusView, address: u32, value: u8, new: SystemBusView) -> bool {
    let a = address % 0x100_0000;
    let latched = SystemBusView { open_bus: value, ..old };
    let register = (a % 0x10000) as u16;
    match spec_wram_index(a) {
        Some(i) => new == (SystemBusView { wram: old.wram.update(i, value), ..latched }),
        None => match spec_save_index(old, a) {
            Some(i) => new == (SystemBusView { save_ram: old.save_ram.update(i, value), ..latched }),
            None => match (old.coprocessor, old.cartridge) {
                (Some(chip), Some(cart)) => exists|next: Coprocessor, handled: bool|
                    #[trigger] chip.write_relation(next, cart.mapper_view(), a, value, handled) && if handled {
                        new == (SystemBusView { coprocessor: Some(next), ..latched })
                    } else {
                        mmio_write_in_transfer(SystemBusView { coprocessor: Some(next), ..latched }, register, value, new)
                    },
                _ => mmio_write_in_transfer(latched, register, value, new),
            },
        },
    }
}

/// The A-bus address of byte `k` of a transfer on channel `c`: fixed, or stepping down or up
/// from the channel's address within its bank.
pub open spec fn dma_a_address(c: DmaChannel, k: int) -> u16 {
    if c.control & 0x08 != 0 {
        c.a_bus_address
    } else if c.control & 0x10 != 0 {
        ((c.a_bus_address as int - k) % 0x10000) as u16
    } else {
        ((c.a_bus_address as int + k) % 0x10000) as u16
    }
}

/// The number of bytes a channel transfers: its byte count, with zero meaning 64 KiB.
pub open spec fn dma_byte_total(c: DmaChannel) -> nat {
    if c.byte_count == 0 { 0x10000 } else { c.byte_count as nat }
}

/// The full A-bus address of byte `k`.
pub open spec fn dma_a_full(c: DmaChannel, k: int) -> u32 {
    (c.a_bus_bank as int * 0x10000 + dma_a_address(c, k) as int) as u32
}

/// The B-bus address of byte `k`: `$2100` plus the channel's register plus the mode's offset.
pub open spec fn dma_b_full(c: DmaChannel, k: int) -> u32 {
    let pattern = mode_offsets(c.control & 0x07);
    (0x2100 + c.b_bus_address as int + pattern[k % pattern.len() as int] as int) as u32
}

/// Where byte `k` is read: the A bus, or the B bus for a reverse transfer.
pub open spec fn dma_source(c: DmaChannel, k: int) -> u32 {
    if c.control & 0x80 != 0 { dma_b_full(c, k) } else { dma_a_full(c, k) }
}

/// Where byte `k` is written: the other bus.
pub open spec fn dma_target(c: DmaChannel, k: int) -> u32 {
    if c.control & 0x80 != 0 { dma_a_full(c, k) } else { dma_b_full(c, k) }
}

/// Byte `k` of a transfer on channel `c` took the bus from `v` to `v2`: it was read at its
/// source and written, as a transfer writes, at its target.
pub open spec fn dma_byte_moved(v: SystemBusView, c: DmaChannel, k: int, v2: SystemBusView) -> bool {
    exists|value: u8, mid: SystemBusView|
        #[trigger] read_effect(v, dma_source(c, k), value, mid) && write_effect_in_transfer(mid, dma_target(c, k), value, v2)
}

/// The states of a transfer on channel `c` from `v`: one more than the bytes moved, each
/// byte taking one state to the next.
pub open spec fn dma_states(v: SystemBusView, c: DmaChannel, states: Seq<SystemBusView>) -> bool {
    &&& states.len() == dma_byte_total(c) + 1
    &&& states[0] == v
    &&& forall|k: int| 0 <= k < dma_byte_total(c) ==> dma_byte_moved(#[trigger] states[k], c, k, states[k + 1])
}

/// A channel's whole transfer took the bus from `v` to `v2`: every byte moved in order, then
/// the channel's address was left where the transfer ended, its byte count cleared and the
/// transferred bytes counted.
pub open spec fn dma_channel_run(v: SystemBusView, index: int, v2: SystemBusView) -> bool {
    let c = v.dma.channels_view()[index];
    let n = dma_byte_total(c);
    exists|states: Seq<SystemBusView>| #[trigger] dma_states(v, c, states) && {
        let last = states[n as int];
        &&& v2 == (SystemBusView { dma: v2.dma, ..last })
        &&& v2.dma.channels_view() == last.dma.channels_view().update(
            index,
            DmaChannel { a_bus_address: dma_a_address(c, n as int), byte_count: 0, ..c },
        )
        &&& v2.dma.dma_mask() == last.dma.dma_mask()
        &&& v2.dma.hdma_mask() == last.dma.hdma_mask()
        &&& v2.dma.transfers() == if last.dma.transfers() as int + n > u64::MAX { u64::MAX } else { (last.dma.transfers() + n) as u64 }
    }
}

/// Channel `i` took the bus from `v` to `v2` when `mask` enables it; otherwise nothing changed.
pub open spec fn dma_slot(v: SystemBusView, mask: u8, i: int, v2: SystemBusView) -> bool {
    if (mask >> (i as u8)) & 1 == 1 { dma_channel_run(v, i, v2) } else { v2 == v }
}

/// The channels enabled in `mask` ran in order, channel 0 first.
pub open spec fn dma_run(v: SystemBusView, mask: u8, v2: SystemBusView) -> bool {
    exists|vs: Seq<SystemBusView>| {
        &&& vs.len() == 9
        &&& vs[0] == v
        &&& vs[8] == v2
        &&& forall|i: int| 0 <= i < 8 ==> #[trigger] dma_slot(vs[i], mask, i, vs[i + 1])
    }
}

/// An MMIO write of `value` to `register`: a `$420B` write latches the enable mask, runs the
/// enabled channels and then clears the mask; other registers as `mmio_write_common` says.
pub open spec fn mmio_write(at: SystemBusView, register: u16, value: u8, new: SystemBusView) -> bool {
    &&& mmio_write_common(at, register, value, new)
    &&& register == 0x420B ==> exists|start: SystemBusView, ran: SystemBusView| {
        &&& start == (SystemBusView { dma: start.dma, ..at })
        &&& with_dma_mask(at.dma, start.dma, value)
        &&& #[trigger] dma_run(start, value, ran)
        &&& new == (SystemBusView { dma: new.dma, ..ran })
        &&& with_dma_mask(ran.dma, new.dma, 0)
    }
}

/// A write of `value` to `address` took the bus from `old` to `new`: the value becomes the
/// open-bus value, then WRAM (and its mirrors), save RAM, the enhancement chip's window and
/// MMIO are tried in turn.
pub open spec fn write_effect(old: SystemBusView, address: u32, value: u8, new: SystemBusView) -> bool {
    let a = address % 0x100_0000;
    let latched = SystemBusView { open_bus: value, ..old };
    let register = (a % 0x10000) as u16;
    match spec_wram_index(a) {
        Some(i) => new == (SystemBusView { wram: old.wram.update(i, value), ..latched }),
        None => match spec_save_index(old, a) {
            Some(i) => new == (SystemBusView { save_ram: old.save_ram.update(i, value), ..latched }),
            None => match (old.coprocessor, old.cartridge) {
                (Some(chip), Some(cart)) => exists|next: Coprocessor, handled: bool|
                    #[trigger] chip.write_relation(next, cart.mapper_view(), a, value, handled) && if handled {
                        new == (SystemBusView { coprocessor: Some(next), ..latched })
                    } else {
                        mmio_write(SystemBusView { coprocessor: Some(next), ..latched }, register, value, new)
                    },
                _ => mmio_write(latched, register, value, new),
            },
        },
    }
}

/// `x` within 16 bits.
pub open spec fn wrap16(x: int) -> u16 {
    (x % 0x10000) as u16
}

/// `v2` is `v1` with DMA channel `i` replaced by `c`.
pub open spec fn channel_set(v1: SystemBusView, i: int, c: DmaChannel, v2: SystemBusView) -> bool {
    &&& v2 == (SystemBusView { dma: v2.dma, ..v1 })
    &&& v2.dma.channels_view() == v1.dma.channels_view().update(i, c)
    &&& v2.dma.dma_mask() == v1.dma.dma_mask()
    &&& v2.dma.hdma_mask() == v1.dma.hdma_mask()
    &&& v2.dma.transfers() == v1.dma.transfers()
}

/// The full address of offset `t` in a channel's A-bus bank.
pub open spec fn hdma_table_full(c: DmaChannel, t: u16) -> u32 {
    (c.a_bus_bank as int * 0x10000 + t as int) as u32
}

/// The rest of an HDMA block reload once its line descriptor `d` was read from `v` (now `v1`):
/// a zero descriptor ends the channel's work for the frame; otherwise its low seven bits are
/// the line count and its top bit the repeat flag, and an indirect channel reads a two-byte
/// data address from the table.
pub open spec fn hdma_reload_after(v1: SystemBusView, c: DmaChannel, d: u8, v2: SystemBusView, c2: DmaChannel) -> bool {
    let t1 = wrap16(c.hdma_table_address + 1);
    if d == 0 {
        v2 == v1 && c2 == (DmaChannel {
            hdma_table_address: t1,
            hdma_active: false,
            hdma_line_counter: 0,
            hdma_repeat: false,
            ..c
        })
    } else if c.control & 0x40 != 0 {
        let t2 = wrap16(t1 + 1);
        exists|low: u8, va: SystemBusView, high: u8|
            #[trigger] read_effect(v1, hdma_table_full(c, t1), low, va) && #[trigger] read_effect(va, hdma_table_full(c, t2), high, v2)
            && c2 == (DmaChannel {
                hdma_table_address: wrap16(t2 + 1),
                hdma_active: true,
                hdma_line_counter: d & 0x7F,
                hdma_repeat: d & 0x80 != 0,
                indirect_address: (low as int + 256 * high as int) as u16,
                hdma_data_address: (low as int + 256 * high as int) as u16,
                ..c
            })
    } else {
        v2 == v1 && c2 == (DmaChannel {
            hdma_table_address: t1,
            hdma_active: true,
            hdma_line_counter: d & 0x7F,
            hdma_repeat: d & 0x80 != 0,
            hdma_data_address: t1,
            ..c
        })
    }
}

/// An HDMA block reload of channel state `c` took the bus from `v` to `v2` and the channel to
/// `c2`: the line descriptor is read at the channel's table address, then as `hdma_reload_after`
/// says.
pub open spec fn hdma_reload(v: SystemBusView, c: DmaChannel, v2: SystemBusView, c2: DmaChannel) -> bool {
    exists|d: u8, v1: SystemBusView|
        #[trigger] read_effect(v, hdma_table_full(c, c.hdma_table_address), d, v1) && hdma_reload_after(v1, c, d, v2, c2)
}

/// Where byte `k` of an HDMA transfer is read: the channel's data address plus `k`.
pub open spec fn hdma_source(c: DmaChannel, k: int) -> u32 {
    hdma_table_full(c, wrap16(c.hdma_data_address + k))
}

/// Where byte `k` of an HDMA transfer is written: `$2100` plus the channel's register plus the
/// mode's offset.
pub open spec fn hdma_target(c: DmaChannel, k: int) -> u32 {
    (0x2100 + c.b_bus_address as int + mode_offsets(c.control & 0x07)[k] as int) as u32
}

/// One HDMA byte took the bus from `v` to `v2`: read at `source`, written at `target`, and
/// counted.
pub open spec fn hdma_move_effect(v: SystemBusView, source: u32, target: u32, v2: SystemBusView) -> bool {
    exists|value: u8, m1: SystemBusView, m2: SystemBusView|
        #[trigger] read_effect(v, source, value, m1) && #[trigger] write_effect(m1, target, value, m2) && {
            &&& v2 == (SystemBusView { dma: v2.dma, ..m2 })
            &&& v2.dma.channels_view() == m2.dma.channels_view()
            &&& v2.dma.dma_mask() == m2.dma.dma_mask()
            &&& v2.dma.hdma_mask() == m2.dma.hdma_mask()
            &&& v2.dma.transfers() == if m2.dma.transfers() == u64::MAX { u64::MAX } else { (m2.dma.transfers() + 1) as u64 }
        }
}

/// Byte `k` of an HDMA transfer took the bus from `v` to `v2`: read at its source, written at
/// its target, and counted.
pub open spec fn hdma_byte_moved(v: SystemBusView, c: DmaChannel, k: int, v2: SystemBusView) -> bool {
    hdma_move_effect(v, hdma_source(c, k), hdma_target(c, k), v2)
}

/// The states of an HDMA transfer of channel state `c` from `v`, one more than its bytes.
pub open spec fn hdma_states(v: SystemBusView, c: DmaChannel, states: Seq<SystemBusView>) -> bool {
    &&& states.len() == mode_offsets(c.control & 0x07).len() + 1
    &&& states[0] == v
    &&& forall|k: int| 0 <= k < mode_offsets(c.control & 0x07).len() ==> hdma_byte_moved(#[trigger] states[k], c, k, states[k + 1])
}

/// An HDMA transfer of one line's bytes took the bus from `v` to `v2` and the channel from `c`
/// to `c2`: one byte per offset of the channel's mode, the data address stepping past them
/// (and, for a direct channel, the table address with it).
pub open spec fn hdma_transfer(v: SystemBusView, c: DmaChannel, v2: SystemBusView, c2: DmaChannel) -> bool {
    let n = mode_offsets(c.control & 0x07).len();
    &&& c2 == (DmaChannel {
        hdma_data_address: wrap16(c.hdma_data_address + n),
        hdma_table_address: if c.control & 0x40 != 0 { c.hdma_table_address } else { wrap16(c.hdma_data_address + n) },
        ..c
    })
    &&& exists|states: Seq<SystemBusView>| #[trigger] hdma_states(v, c, states) && states[n as int] == v2
}

/// Frame start for channel `i`: a channel not in `mask` goes idle; an enabled one starts its
/// table at its A-bus address and loads its first block.
pub open spec fn hdma_init_slot(v: SystemBusView, mask: u8, i: int, v2: SystemBusView) -> bool {
    let c = v.dma.channels_view()[i];
    if (mask >> (i as u8)) & 1 == 0 {
        channel_set(v, i, DmaChannel { hdma_active: false, ..c }, v2)
    } else {
        exists|v1: SystemBusView, c1: DmaChannel|
            #[trigger] hdma_reload(v, DmaChannel { hdma_table_address: c.a_bus_address, hdma_active: true, ..c }, v1, c1)
                && channel_set(v1, i, c1, v2)
    }
}

/// Frame start for all eight channels, in order.
pub open spec fn hdma_init_run(v: SystemBusView, mask: u8, v2: SystemBusView) -> bool {
    exists|vs: Seq<SystemBusView>| {
        &&& vs.len() == 9
        &&& vs[0] == v
        &&& vs[8] == v2
        &&& forall|i: int| 0 <= i < 8 ==> #[trigger] hdma_init_slot(vs[i], mask, i, vs[i + 1])
    }
}

/// The first part of a line of an active channel: its bytes move unless the block repeats
/// the previous line.
pub open spec fn hdma_line_first(v: SystemBusView, c: DmaChannel, v1: SystemBusView, c1: DmaChannel) -> bool {
    if c.hdma_repeat { v1 == v && c1 == c } else { hdma_transfer(v, c, v1, c1) }
}

/// The rest of a line: the line count goes down by one; at zero the next block is loaded,
/// otherwise the repeat flag clears; the channel is stored back.
pub open spec fn hdma_line_rest(v1: SystemBusView, c1: DmaChannel, i: int, v2: SystemBusView) -> bool {
    let cd = DmaChannel { hdma_line_counter: (c1.hdma_line_counter - 1) as u8, ..c1 };
    if cd.hdma_line_counter == 0 {
        exists|v3: SystemBusView, c3: DmaChannel| #[trigger] hdma_reload(v1, cd, v3, c3) && channel_set(v3, i, c3, v2)
    } else {
        channel_set(v1, i, DmaChannel { hdma_repeat: false, ..cd }, v2)
    }
}

/// One scanline of HDMA for channel `i`: an enabled, active channel with lines left runs its
/// line; any other channel is left alone.
pub open spec fn hdma_line_slot(v: SystemBusView, mask: u8, i: int, v2: SystemBusView) -> bool {
    let c = v.dma.channels_view()[i];
    if (mask >> (i as u8)) & 1 == 1 && c.hdma_active && c.hdma_line_counter != 0 {
        exists|v1: SystemBusView, c1: DmaChannel| #[trigger] hdma_line_first(v, c, v1, c1) && hdma_line_rest(v1, c1, i, v2)
    } else {
        v2 == v
    }
}

/// One scanline of HDMA for all eight channels, in order.
pub open spec fn hdma_line_run(v: SystemBusView, mask: u8, v2: SystemBusView) -> bool {
    exists|vs: Seq<SystemBusView>| {
        &&& vs.len() == 9
        &&& vs[0] == v
        &&& vs[8] == v2
        &&& forall|i: int| 0 <= i < 8 ==> #[trigger] hdma_line_slot(vs[i], mask, i, vs[i + 1])
    }
}

/// The coprocessor, if any, did `clocks` master cycles of work, taking the bus from `v` to `v2`.
pub open spec fn chip_stepped(v: SystemBusView, clocks: u64, v2: SystemBusView) -> bool {
    match v.coprocessor {
        Some(c) => v2.coprocessor matches Some(next) && c.step_relation(next, clocks)
            && v2 == (SystemBusView { coprocessor: Some(next), ..v }),
        None => v2 == v,
    }
}

/// At a frame start every HDMA channel is set up; otherwise nothing happens.
pub open spec fn hdma_frame_start(v: SystemBusView, new_frame: bool, v2: SystemBusView) -> bool {
    if new_frame { hdma_init_run(v, v.dma.hdma_mask(), v2) } else { v2 == v }
}

/// After a scanline boundary outside VBlank one line of HDMA runs; otherwise nothing happens.
pub open spec fn hdma_scanline(v: SystemBusView, crossed: bool, v2: SystemBusView) -> bool {
    if crossed && !v.timing.spec_in_vblank() { hdma_line_run(v, v.dma.hdma_mask(), v2) } else { v2 == v }
}

/// Advancing the bus by `clocks` master cycles took it from `old` to `new`: the timing moves
/// on, the coprocessor works for as long, HDMA is set up at a frame start and runs a line after
/// a scanline boundary, and VBlank raises the NMI flag and a scanline boundary the IRQ flag when
/// `$4200` enables it.
pub open spec fn advance_effect(old: SystemBusView, clocks: u64, new: SystemBusView) -> bool {
    let ev = advance_events(old.timing, clocks as nat);
    let timed = SystemBusView { timing: advance_state(old.timing, clocks as nat), ..old };
    exists|v1: SystemBusView, v2: SystemBusView, v3: SystemBusView|
        #![trigger chip_stepped(timed, clocks, v1), hdma_frame_start(v1, ev.started_new_frame, v2), hdma_scanline(v2, ev.crossed_scanline, v3)]
        chip_stepped(timed, clocks, v1) && hdma_frame_start(v1, ev.started_new_frame, v2)
            && hdma_scanline(v2, ev.crossed_scanline, v3)
            && new == (SystemBusView {
                rdnmi: v3.rdnmi || ev.entered_vblank,
                timeup: v3.timeup || (ev.crossed_scanline && v3.nmitimen & 0x30 != 0),
                ..v3
            })
}

/// One step further from a 16-bit position.
proof fn lemma_wrap16_step(a: int, k: int)
    ensures
        wrap16(a + (k + 1)) == if wrap16(a + k) == 0xFFFF { 0u16 } else { (wrap16(a + k) + 1) as u16 },
{
    assert(((a + (k + 1)) % 0x10000) == if (a + k) % 0x10000 == 0xFFFF { 0 } else { (a + k) % 0x10000 + 1 }) by (nonlinear_arith);
}

/// The A-bus address one byte further into a transfer: unchanged for a fixed transfer,
/// otherwise one lower or one higher, wrapping within the bank.
proof fn lemma_dma_a_address_step(c: DmaChannel, k: int)
    requires
        k >= 0,
    ensures
        dma_a_address(c, k + 1) == if c.control & 0x08 != 0 {
            dma_a_address(c, k)
        } else if c.control & 0x10 != 0 {
            if dma_a_address(c, k) == 0 { 0xFFFFu16 } else { (dma_a_address(c, k) - 1) as u16 }
        } else {
            if dma_a_address(c, k) == 0xFFFF { 0u16 } else { (dma_a_address(c, k) + 1) as u16 }
        },
{
    let a = c.a_bus_address as int;
    assert(((a - (k + 1)) % 0x10000) == if (a - k) % 0x10000 == 0 { 0xFFFF } else { (a - k) % 0x10000 - 1 }) by (nonlinear_arith);
    assert(((a + (k + 1)) % 0x10000) == if (a + k) % 0x10000 == 0xFFFF { 0 } else { (a + k) % 0x10000 + 1 }) by (nonlinear_arith);
}

/// What CPU accesses leave alone on the system bus: whether a cartridge is installed, and the
/// timing position.
pub open spec fn kept_part(v: SystemBusView) -> Seq<int> {
    seq![
        if v.cartridge is Some { 1int } else { 0int },
        v.timing.master_clock as int,
        v.timing.scanline as int,
        v.timing.dot as int,
        v.timing.frame as int,
    ]
}

/// A run of HDMA byte moves stays one when the next byte is moved from its last state.
proof fn lemma_moves_extend(states: Seq<SystemBusView>, c0: DmaChannel, k: int, next: SystemBusView)
    requires
        states.len() == k + 1,
        k >= 0,
        forall|q: int| 0 <= q < k ==> hdma_byte_moved(#[trigger] states[q], c0, q, states[q + 1]),
        hdma_byte_moved(states.last(), c0, k, next),
    ensures
        forall|q: int| 0 <= q < k + 1 ==> hdma_byte_moved(#[trigger] states.push(next)[q], c0, q, states.push(next)[q + 1]),
{
    assert forall|q: int| 0 <= q < k + 1 implies hdma_byte_moved(#[trigger] states.push(next)[q], c0, q, states.push(next)[q + 1]) by {
        if q < k {
            assert(states.push(next)[q] == states[q] && states.push(next)[q + 1] == states[q + 1]);
        } else {
            assert(states.push(next)[q] == states.last() && states.push(next)[q + 1] == next);
        }
    }
}

/// One traced event as an effect on the system bus view: a read that gave the event's value,
/// a write of it, or an idle cycle that leaves the view alone.
pub open spec fn view_step(before: SystemBusView, e: BusEvent, after: SystemBusView) -> bool {
    match e.access {
        AccessKind::Read => read_effect(before, e.address, e.value, after),
        AccessKind::Write => write_effect(before, e.address, e.value, after),
        AccessKind::Wait => before == after,
    }
}

/// The system bus went from `start` to `end` through the effects of `events`, in order.
pub open spec fn view_steps(start: SystemBusView, events: Seq<BusEvent>, end: SystemBusView) -> bool {
    exists|states: Seq<SystemBusView>| {
        &&& states.len() == events.len() + 1
        &&& states[0] == start
        &&& states.last() == end
        &&& forall|i: int| 0 <= i < events.len() ==> view_step(states[i], #[trigger] events[i], states[i + 1])
    }
}

/// Bus steps of the system bus are the read and write effects on its view.
pub proof fn lemma_view_steps(start: SystemBus, events: Seq<BusEvent>, end: SystemBus)
    requires
        bus_steps(start, events, end),
    ensures
        view_steps(start@, events, end@),
{
    let states = choose|states: Seq<SystemBus>| {
        &&& states.len() == events.len() + 1
        &&& states[0] == start
        &&& states.last() == end
        &&& forall|i: int| 0 <= i < events.len() ==> event_step(states[i], #[trigger] events[i], states[i + 1])
    };
    let views = Seq::new(states.len(), |i: int| states[i]@);
    assert forall|i: int| 0 <= i < events.len() implies view_step(views[i], #[trigger] events[i], views[i + 1]) by {
        assert(event_step(states[i], events[i], states[i + 1]));
    }
    assert(views[0] == start@);
    assert(views.last() == end@);
}

/// Equal kept parts mean the same timing position and the same cartridge presence.
pub proof fn lemma_kept_part(a: SystemBusView, b: SystemBusView)
    requires
        kept_part(a) == kept_part(b),
    ensures
        a.timing == b.timing,
        (a.cartridge is Some) == (b.cartridge is Some),
{
    assert(kept_part(a)[0] == kept_part(b)[0]);
    assert(kept_part(a)[1] == kept_part(b)[1]);
    assert(kept_part(a)[2] == kept_part(b)[2]);
    assert(kept_part(a)[3] == kept_part(b)[3]);
    assert(kept_part(a)[4] == kept_part(b)[4]);
}

impl Bus for SystemBus {
    open spec fn kept(&self) -> Seq<int> {
        kept_part(self@)
    }

    open spec fn read_gives(&self, address: Address, value: u8, after: &Self) -> bool {
        read_effect(self@, address, value, after@)
    }

    open spec fn write_gives(&self, address: Address, value: u8, after: &Self) -> bool {
        write_effect(self@, address, value, after@)
    }

    /// Read one byte: WRAM mirrors, then save RAM, then the coprocessor window, then MMIO, then
    /// cartridge ROM, else the open-bus value; the byte read becomes the open-bus value.
    fn read(&mut self, address: Address) -> (value: u8)
        ensures
            final(self)@.open_bus == value,
            keeps_frame(old(self)@, final(self)@),
            final(self)@.nmitimen == old(self)@.nmitimen,
            final(self)@.dma == old(self)@.dma,
            read_effect(old(self)@, address, value, final(self)@),
    {
        proof { use_type_invariant(&*self); }
        let address = address % 0x100_0000;
        let value = if let Some(index) = low_wram_mirror_index(address) {
            self.wram[index]
        } else if let Some(index) = high_wram_index(address) {
            self.wram[index]
        } else if let Some(index) = self.save_ram_index(address) {
            self.save_ram[index]
        } else if let Some(value) = self.read_coprocessor(address) {
            value
        } else if let Some(value) = self.read_mmio(address) {
            value
        } else {
            let rom = match &self.cartridge {
                Some(c) => c.read_byte(address),
                None => None,
            };
            match rom {
                Some(v) => v,
                None => self.open_bus,
            }
        };
        proof { use_type_invariant(&*self); }
        self.open_bus = value;
        value
    }

    /// Write one byte: the value becomes the open-bus value, then WRAM mirrors, save RAM, the
    /// coprocessor window and MMIO are tried in turn.
    fn write(&mut self, address: Address, value: u8)
        ensures
            keeps_frame(old(self)@, final(self)@),
            write_effect(old(self)@, address, value, final(self)@),
    {
        proof { use_type_invariant(&*self); }
        self.bus_write(address, value, false);
        proof { use_type_invariant(&*self); }
    }
}

impl SystemBus {
    /// Write one byte; a `$420B` write reached from inside a DMA transfer (`nested`) latches and
    /// clears the enable mask without starting further transfers.
    fn bus_write(&mut self, address: u32, value: u8, nested: bool)
        ensures
            nested ==> write_effect_in_transfer(old(self)@, address, value, final(self)@),
            !nested ==> write_effect(old(self)@, address, value, final(self)@),
            keeps_frame(old(self)@, final(self)@),
            ((nested || address % 0x10000 != 0x420B) && address % 0x10000 != 0x4200) ==> final(self)@.nmitimen == old(self)@.nmitimen,
            (address % 0x10000 < 0x4200 || address % 0x10000 > 0x437F) ==> final(self)@.dma == old(self)@.dma,
        decreases (if nested { 0int } else { 1int }), 3int,
    {
        proof { use_type_invariant(&*self); }
        let address = address % 0x100_0000;
        self.open_bus = value;
        if let Some(index) = low_wram_mirror_index(address) {
            self.wram[index] = value;
            return;
        }
        if let Some(index) = high_wram_index(address) {
            self.wram[index] = value;
            return;
        }
        if let Some(index) = self.save_ram_index(address) {
            self.save_ram[index] = value;
            return;
        }
        if self.write_coprocessor(address, value) {
            return;
        }
        let _ = self.write_mmio(address, value, nested);
        proof { use_type_invariant(&*self); }
    }
}

/// A byte written at a WRAM address reads back through every address that selects the same
/// WRAM cell (for example a low-bank mirror and bank `$7E`).
pub proof fn lemma_wram_write_then_read(v: SystemBusView, written: u32, read: u32, value: u8)
    requires
        bus_shape(v),
        spec_wram_index(written % 0x100_0000) is Some,
        spec_wram_index(written % 0x100_0000) == spec_wram_index(read % 0x100_0000),
    ensures
        v.wram.update(spec_wram_index(written % 0x100_0000)->0, value)[spec_wram_index(read % 0x100_0000)->0] == value,
{
}

/// Every low-bank WRAM mirror address selects the same cell as its bank `$7E` address.
pub proof fn lemma_low_wram_mirrors_bank_7e(bank: u32, offset: u32)
    requires
        bank <= 0x3F || 0x80 <= bank <= 0xBF,
        offset < 0x2000,
    ensures
        spec_wram_index((bank * 0x10000 + offset) as u32) == spec_wram_index((0x7E_0000 + offset) as u32),
        spec_wram_index((bank * 0x10000 + offset) as u32) == Some(offset as int),
{
}

} // verus!
