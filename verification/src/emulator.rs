//! Emulator facade exposed to the CLI and frontends.
use vstd::prelude::*;

use crate::apu::{Apu, ApuStatus, ApuView, AudioFrame, sat_add};
use crate::bus::Bus;
use crate::cartridge::Cartridge;
use crate::coprocessor::TrigTable;
use crate::cpu_65816::{Cpu65816, reset_registers};
use crate::cpu_65816::registers::Registers;
use crate::cpu_65816::semantics::{bank_addr, instruction_sem, lemma_instruction_length, rd, supported_opcode};
use crate::bus::BusEvent;
use crate::error::{Error, Result};
use crate::input::ControllerState;
use crate::manifest::AssetConfig;
use crate::cartridge::header::spec_ram_size_bytes;
use crate::ppu::{FrameBuffer, power_on_ppu};
use crate::apu::spc700::reset_spc700_regs;
use crate::system::{advance_effect, lemma_kept_part, lemma_view_steps, reset_effect, view_steps, read_effect, rendered_frame, write_effect, SystemBus, SystemBusView};
use crate::timing::{TimingState, advance_state, DOTS_PER_SCANLINE, NTSC_SCANLINES_PER_FRAME, lemma_advance_frame, lemma_advance_keeps_ranges, lemma_advance_master_clock, frame_position, frame_ticks};

verus! {

/// Master cycles one CPU bus cycle takes.
pub const CPU_BUS_CYCLE_MASTER_CYCLES: u64 = 6;

/// Emulator state snapshot.
#[derive(Debug)]
pub struct SaveState {
    /// Save-state format version.
    pub version: u32,
    /// CPU state.
    pub cpu: Cpu65816,
    /// APU boundary state.
    pub apu: Apu,
    /// CPU-visible memory, MMIO, cartridge, and timing state.
    pub system: SystemBus,
}

/// Builder for the emulator facade.
#[derive(Debug, Clone)]
pub struct EmulatorBuilder {
    assets: AssetConfig,
    trig: TrigTable,
}

/// Audio samples appended for one instruction: `max(master_cycles / 6, 1)` stereo pairs of a
/// square wave whose amplitude follows the SPC700 step count.
pub open spec fn audio_chunk(master_cycles: u64, steps: u64) -> Seq<i16> {
    let pairs = if master_cycles / 6 > 1 { master_cycles / 6 } else { 1 };
    let amplitude = ((steps as i16) as int % 32 + 1) * 192;
    Seq::new((2 * pairs) as nat, |i: int| if (i / 2) % 2 == 0 { amplitude as i16 } else { (-amplitude) as i16 })
}

/// Bootstrap emulator facade.
#[derive(Debug)]
pub struct Emulator {
    cpu: Cpu65816,
    apu: Apu,
    frame_buffer: FrameBuffer,
    pending_audio: AudioFrame,
    system: SystemBus,
    assets: AssetConfig,
}

impl EmulatorBuilder {
    /// A fresh builder with default assets and no trigonometric tables.
    pub fn new() -> (b: Self)
        ensures
            b.spec_assets() == AssetConfig::spec_default(),
            b.spec_trig().sin_view().len() == 0,
    {
        EmulatorBuilder { assets: AssetConfig::default(), trig: TrigTable::empty() }
    }

    /// Configured assets.
    pub closed spec fn spec_assets(&self) -> AssetConfig {
        self.assets
    }

    /// Configured tables.
    pub closed spec fn spec_trig(&self) -> TrigTable {
        self.trig
    }

    /// Configure asset paths.
    pub fn assets(self, assets: AssetConfig) -> (b: Self)
        ensures
            b.spec_assets() == assets,
            b.spec_trig() == self.spec_trig(),
    {
        EmulatorBuilder { assets, trig: self.trig }
    }

    /// Configure the trigonometric tables handed to math coprocessors.
    pub fn trig_table(self, trig: TrigTable) -> (b: Self)
        ensures
            b.spec_assets() == self.spec_assets(),
            b.spec_trig() == trig,
    {
        EmulatorBuilder { assets: self.assets, trig }
    }

    /// Build an emulator with no cartridge loaded yet.
    pub fn build(self) -> (e: Emulator)
        ensures
            e.spec_assets() == self.spec_assets(),
            e.system_view().cartridge is None,
            e.system_view().trig == self.spec_trig(),
            e.apu_view().configured_ipl_path == self.spec_assets().spc700_ipl,
            e.apu_view().ipl_rom is None,
            e.frame().wf(),
            e.wf(),
    {
        let mut system = SystemBus::new();
        system.set_trig_table(self.trig);
        let ipl = match &self.assets.spc700_ipl {
            Some(p) => Some(p.clone()),
            None => None,
        };
        Emulator {
            cpu: Cpu65816::default(),
            apu: Apu::with_ipl_path(ipl),
            frame_buffer: FrameBuffer::default(),
            pending_audio: AudioFrame::default(),
            system,
            assets: self.assets,
        }
    }
}

impl Default for EmulatorBuilder {
    fn default() -> (b: Self)
        ensures
            b.spec_assets() == AssetConfig::spec_default(),
    {
        EmulatorBuilder::new()
    }
}

impl AssetConfig {
    /// The configuration without any path.
    pub open spec fn spec_default() -> AssetConfig {
        AssetConfig { spc700_ipl: None, save_dir: None, state_dir: None, cache_dir: None, config_path: None }
    }
}

impl Default for Emulator {
    fn default() -> (e: Self)
        ensures
            e.system_view().cartridge is None,
            e.frame().wf(),
    {
        EmulatorBuilder::new().build()
    }
}

/// The APU right after a reset: the SPC700 at its reset registers, the ports cleared (the
/// outgoing ones showing the boot handshake when firmware is loaded), the step count at zero;
/// firmware and its configured path kept.
pub open spec fn reset_apu_view(v: ApuView) -> ApuView {
    ApuView {
        spc700: reset_spc700_regs(),
        cpu_to_apu: seq![0u8, 0, 0, 0],
        apu_to_cpu: if v.ipl_rom is Some { seq![0xAAu8, 0xBB, 0, 0] } else { seq![0u8, 0, 0, 0] },
        spc700_steps: 0,
        ..v
    }
}

/// What an instruction with the bus events `trace` leaves of the system bus `fetched_from`:
/// the events' read and write effects in order, then the APU's outgoing bytes `apu_out` latched
/// into the ports and the master clock advanced by the instruction's cycles.
pub open spec fn stepped_system(fetched_from: SystemBusView, trace: Seq<BusEvent>, apu_out: Seq<u8>, after: SystemBusView) -> bool {
    exists|after_cpu: SystemBusView| {
        &&& #[trigger] view_steps(fetched_from, trace, after_cpu)
        &&& advance_effect(SystemBusView { apu_io: apu_out, ..after_cpu }, instruction_master_cycles(trace.len()), after)
    }
}

/// Master cycles an instruction of `events` bus events takes: six per event, capped at the
/// largest multiple of six a `u64` holds.
pub open spec fn instruction_master_cycles(events: nat) -> u64 {
    if events > u64::MAX / 6 {
        (u64::MAX - u64::MAX % 6) as u64
    } else {
        (events * 6) as u64
    }
}

/// The system bus as the CPU fetches from it: the APU's outgoing port bytes latched into
/// `$2140-$2143`.
pub open spec fn fetch_view(system: SystemBusView, apu: ApuView) -> SystemBusView {
    SystemBusView { apu_io: apu.apu_to_cpu, ..system }
}

/// `after` is `before` with one instruction executed: the opcode was fetched from the bus as
/// it stood with the APU's outgoing ports latched, the registers changed as the instruction's
/// semantics say, its bus events took effect on the system in order, the master clock and the
/// APU moved on by its cycles and its audio was appended; the frame buffer is untouched.
#[verifier::opaque]
pub open spec fn instruction_step(before: Emulator, after: Emulator) -> bool {
    &&& after.frame() == before.frame()
    &&& exists|trace: Seq<BusEvent>, fetched: SystemBusView| {
        &&& read_effect(fetch_view(before.system_view(), before.apu_view()), trace[0].address, trace[0].value, fetched)
        &&& executes_instruction(before.cpu_regs(), after.cpu_regs(), trace)
        &&& stepped_system(fetch_view(before.system_view(), before.apu_view()), trace,
            after.apu_view().apu_to_cpu, after.system_view())
        &&& after.system_view().timing
            == advance_state(before.system_view().timing, instruction_master_cycles(trace.len()) as nat)
        &&& after.apu_view().spc700_steps
            == sat_add(before.apu_view().spc700_steps, (instruction_master_cycles(trace.len()) / 6) as int)
        &&& after.audio_view() == before.audio_view()
            + audio_chunk(instruction_master_cycles(trace.len()), after.apu_view().spc700_steps)
    }
}

/// The step from `before` is refused with `e`: the byte fetched at the program counter is no
/// supported opcode, and the error names the 65816, that byte and its address.
pub open spec fn refused_step(before: Emulator, e: Error) -> bool {
    &&& e matches Error::UnsupportedOpcode { cpu, opcode, address }
    &&& cpu@ == "65816"@
    &&& address == bank_addr(before.cpu_regs().pbr, before.cpu_regs().pc)
    &&& !supported_opcode(opcode)
    &&& exists|fetched: SystemBusView|
        read_effect(fetch_view(before.system_view(), before.apu_view()), address, opcode, fetched)
}

/// Each emulator of `run` is the one before it with one instruction executed.
pub open spec fn instruction_run(run: Seq<Emulator>) -> bool {
    forall|i: int| 0 <= i < run.len() - 1 ==> instruction_step(#[trigger] run[i], run[i + 1])
}

/// `first` is `before` with its audio buffer emptied.
pub open spec fn starts_from(first: Emulator, before: Emulator) -> bool {
    &&& first.cpu_regs() == before.cpu_regs()
    &&& first.system_view() == before.system_view()
    &&& first.apu_view() == before.apu_view()
    &&& first.frame() == before.frame()
    &&& first.audio_view().len() == 0
}

/// `after` is `last` with only the frame buffer changed.
pub open spec fn same_but_frame(last: Emulator, after: Emulator) -> bool {
    &&& after.cpu_regs() == last.cpu_regs()
    &&& after.system_view() == last.system_view()
    &&& after.apu_view() == last.apu_view()
    &&& after.audio_view() == last.audio_view()
}

/// `after` is `before` run to the next frame: with the audio buffer emptied, instructions were
/// executed one by one, each started while the frame counter still showed the old frame, until
/// it showed another (or the master clock stood saturated); then the frame was rendered.
pub open spec fn frame_run(before: Emulator, after: Emulator) -> bool {
    exists|run: Seq<Emulator>| {
        &&& run.len() >= 2
        &&& starts_from(run[0], before)
        &&& #[trigger] instruction_run(run)
        &&& forall|i: int| 0 <= i < run.len() - 1 ==> (#[trigger] run[i]).system_view().timing.frame
            == before.system_view().timing.frame
        &&& same_but_frame(run.last(), after)
        &&& after.frame().pixels_view() == rendered_frame(after.system_view())
    }
}

/// Running `before` to the next frame stopped on `e`: instructions were executed one by one from
/// `before` (its audio buffer emptied), each while the old frame still showed, until the next
/// step was refused with `e`.
pub open spec fn frame_stopped(before: Emulator, e: Error) -> bool {
    exists|run: Seq<Emulator>| {
        &&& run.len() >= 1
        &&& starts_from(run[0], before)
        &&& #[trigger] instruction_run(run)
        &&& forall|i: int| 0 <= i < run.len() ==> (#[trigger] run[i]).system_view().timing.frame
            == before.system_view().timing.frame
        &&& refused_step(run.last(), e)
    }
}

proof fn lemma_run_push(run: Seq<Emulator>, next: Emulator, frame: u64)
    requires
        run.len() >= 1,
        instruction_run(run),
        instruction_step(run.last(), next),
        forall|i: int| 0 <= i < run.len() - 1 ==> (#[trigger] run[i]).system_view().timing.frame == frame,
        run.last().system_view().timing.frame == frame,
    ensures
        instruction_run(run.push(next)),
        forall|i: int| 0 <= i < run.len() ==> (#[trigger] run.push(next)[i]).system_view().timing.frame == frame,
        run.push(next).last() == next,
        run.push(next)[0] == run[0],
{
    let longer = run.push(next);
    assert forall|i: int| 0 <= i < longer.len() - 1 implies instruction_step(#[trigger] longer[i], longer[i + 1]) by {
        if i < run.len() - 1 {
            assert(longer[i] == run[i] && longer[i + 1] == run[i + 1]);
        } else {
            assert(longer[i] == run.last() && longer[i + 1] == next);
        }
    }
    assert forall|i: int| 0 <= i < run.len() implies (#[trigger] longer[i]).system_view().timing.frame == frame by {
        assert(longer[i] == run[i]);
    }
}

proof fn lemma_run_stopped(before: Emulator, run: Seq<Emulator>, e: Error)
    requires
        run.len() >= 1,
        starts_from(run[0], before),
        instruction_run(run),
        forall|i: int| 0 <= i < run.len() - 1 ==> (#[trigger] run[i]).system_view().timing.frame
            == before.system_view().timing.frame,
        run.last().system_view().timing.frame == before.system_view().timing.frame,
        refused_step(run.last(), e),
    ensures
        frame_stopped(before, e),
{
    assert forall|i: int| 0 <= i < run.len() implies (#[trigger] run[i]).system_view().timing.frame
        == before.system_view().timing.frame by {
        if i == run.len() - 1 {
            assert(run[i] == run.last());
        }
    }
}

/// `after` is `before` with `rom` loaded and everything reset: timing at zero, the audio buffer
/// empty, the CPU at its reset registers with the program counter at the cartridge's reset
/// vector (zero when the mapping has none), the APU reset, the PPU at power-on, work RAM and
/// save RAM (sized from the header) cleared and the frame buffer blank.
pub open spec fn rom_loaded(before: Emulator, rom: Cartridge, after: Emulator) -> bool {
    &&& after.system_view().cartridge == Some(rom)
    &&& after.system_view().timing == (TimingState { master_clock: 0, scanline: 0, dot: 0, frame: 0 })
    &&& after.audio_view().len() == 0
    &&& after.cpu_regs() == (Registers {
        pc: match (rom.spec_read_byte(0x00FFFC), rom.spec_read_byte(0x00FFFD)) {
            (Some(lo), Some(hi)) => (lo as u16) | ((hi as u16) << 8u16),
            _ => 0u16,
        },
        ..reset_registers()
    })
    &&& after.apu_view() == reset_apu_view(before.apu_view())
    &&& after.system_view().ppu == power_on_ppu()
    &&& after.system_view().wram == Seq::new(0x20000, |i: int| 0u8)
    &&& after.system_view().save_ram == Seq::new(spec_ram_size_bytes(rom.header_view()) as nat, |i: int| 0u8)
    &&& after.frame().pixels_view() == Seq::new(229376, |i: int| 0u8)
}

/// A host write of `w.1` to `w.0` took `before` to `after`: only the system bus changed, by the
/// write's effect, and the timing stayed.
pub open spec fn host_write_step(before: Emulator, w: (u32, u8), after: Emulator) -> bool {
    &&& write_effect(before.system_view(), w.0, w.1, after.system_view())
    &&& after.system_view().timing == before.system_view().timing
    &&& after.cpu_regs() == before.cpu_regs()
    &&& after.apu_view() == before.apu_view()
    &&& after.frame() == before.frame()
    &&& after.audio_view() == before.audio_view()
}

/// The host writes `writes`, in order, took `before` to `after`.
pub open spec fn host_writes(before: Emulator, writes: Seq<(u32, u8)>, after: Emulator) -> bool {
    exists|states: Seq<Emulator>| {
        &&& states.len() == writes.len() + 1
        &&& states[0] == before
        &&& states.last() == after
        &&& forall|i: int| 0 <= i < writes.len() ==> host_write_step(states[i], #[trigger] writes[i], states[i + 1])
    }
}

/// A host read of `address` that gave `value` took `before` to `after`: only the system bus
/// changed, by the read's effect, and the timing stayed.
pub open spec fn host_read_step(before: Emulator, address: u32, value: u8, after: Emulator) -> bool {
    &&& read_effect(before.system_view(), address, value, after.system_view())
    &&& after.system_view().timing == before.system_view().timing
    &&& after.cpu_regs() == before.cpu_regs()
    &&& after.apu_view() == before.apu_view()
    &&& after.frame() == before.frame()
    &&& after.audio_view() == before.audio_view()
}

/// Host reads of the addresses of `reads`, in order, gave `seen` and took `before` to `after`.
pub open spec fn host_reads(before: Emulator, reads: Seq<(u32, u8)>, seen: Seq<u8>, after: Emulator) -> bool {
    &&& seen.len() == reads.len()
    &&& exists|states: Seq<Emulator>| {
        &&& states.len() == reads.len() + 1
        &&& states[0] == before
        &&& states.last() == after
        &&& forall|i: int| 0 <= i < reads.len() ==> host_read_step(states[i], (#[trigger] reads[i]).0, seen[i], states[i + 1])
    }
}

/// No host writes leave the emulator as it was.
pub proof fn lemma_host_writes_none(e: Emulator)
    ensures
        host_writes(e, Seq::empty(), e),
{
    let states = seq![e];
    assert(states.len() == 1 && states[0] == e && states.last() == e);
}

/// A run of host writes extends by one write.
pub proof fn lemma_host_writes_push(before: Emulator, writes: Seq<(u32, u8)>, mid: Emulator, w: (u32, u8), after: Emulator)
    requires
        host_writes(before, writes, mid),
        host_write_step(mid, w, after),
    ensures
        host_writes(before, writes.push(w), after),
{
    let states = choose|states: Seq<Emulator>| {
        &&& states.len() == writes.len() + 1
        &&& states[0] == before
        &&& states.last() == mid
        &&& forall|i: int| 0 <= i < writes.len() ==> host_write_step(states[i], #[trigger] writes[i], states[i + 1])
    };
    let longer = writes.push(w);
    let next = states.push(after);
    assert forall|i: int| 0 <= i < longer.len() implies host_write_step(next[i], #[trigger] longer[i], next[i + 1]) by {
        if i < writes.len() {
            assert(longer[i] == writes[i]);
            assert(host_write_step(states[i], writes[i], states[i + 1]));
        }
    }
    assert(next.len() == longer.len() + 1 && next[0] == before && next.last() == after);
}

/// No host reads leave the emulator as it was.
pub proof fn lemma_host_reads_none(e: Emulator)
    ensures
        host_reads(e, Seq::empty(), Seq::empty(), e),
{
    let states = seq![e];
    assert(states.len() == 1 && states[0] == e && states.last() == e);
}

/// A run of host reads extends by one read.
pub proof fn lemma_host_reads_push(
    before: Emulator,
    reads: Seq<(u32, u8)>,
    seen: Seq<u8>,
    mid: Emulator,
    r: (u32, u8),
    value: u8,
    after: Emulator,
)
    requires
        host_reads(before, reads, seen, mid),
        host_read_step(mid, r.0, value, after),
    ensures
        host_reads(before, reads.push(r), seen.push(value), after),
{
    let states = choose|states: Seq<Emulator>| {
        &&& states.len() == reads.len() + 1
        &&& states[0] == before
        &&& states.last() == mid
        &&& forall|i: int| 0 <= i < reads.len() ==> host_read_step(states[i], (#[trigger] reads[i]).0, seen[i], states[i + 1])
    };
    let longer = reads.push(r);
    let seen2 = seen.push(value);
    let next = states.push(after);
    assert forall|i: int| 0 <= i < longer.len() implies host_read_step(next[i], (#[trigger] longer[i]).0, seen2[i], next[i + 1]) by {
        if i < reads.len() {
            assert(longer[i] == reads[i] && seen2[i] == seen[i]);
            assert(host_read_step(states[i], reads[i].0, seen[i], states[i + 1]));
        }
    }
    assert(next.len() == longer.len() + 1 && next[0] == before && next.last() == after);
}

/// `after` is `before` run through `n` frames, one after another.
pub open spec fn frames_run(before: Emulator, after: Emulator, n: nat) -> bool {
    exists|emus: Seq<Emulator>| {
        &&& emus.len() == n + 1
        &&& emus[0] == before
        &&& emus.last() == after
        &&& forall|i: int| 0 <= i < n ==> frame_run(#[trigger] emus[i], emus[i + 1])
    }
}

/// No frames leave the emulator as it was.
pub proof fn lemma_frames_none(e: Emulator)
    ensures
        frames_run(e, e, 0),
{
    let emus = seq![e];
    assert(emus.len() == 1 && emus[0] == e && emus.last() == e);
}

/// A run of frames extends by one frame.
pub proof fn lemma_frames_push(before: Emulator, mid: Emulator, after: Emulator, n: nat)
    requires
        frames_run(before, mid, n),
        frame_run(mid, after),
    ensures
        frames_run(before, after, n + 1),
{
    let emus = choose|emus: Seq<Emulator>| {
        &&& emus.len() == n + 1
        &&& emus[0] == before
        &&& emus.last() == mid
        &&& forall|i: int| 0 <= i < n ==> frame_run(#[trigger] emus[i], emus[i + 1])
    };
    let longer = emus.push(after);
    assert forall|i: int| 0 <= i < n + 1 implies frame_run(#[trigger] longer[i], longer[i + 1]) by {
        if i < n {
            assert(longer[i] == emus[i] && longer[i + 1] == emus[i + 1]);
        } else {
            assert(longer[i] == mid && longer[i + 1] == after);
        }
    }
    assert(longer.len() == n + 2 && longer[0] == before && longer.last() == after);
}

/// Running to the next frame took the frame counter one further, or stopped with the master
/// clock saturated; the master clock never went back.
pub open spec fn one_frame_later(before: TimingState, after: TimingState) -> bool {
    &&& after.frame == before.frame + 1 || (after.frame == before.frame && after.master_clock == u64::MAX)
    &&& after.master_clock >= before.master_clock
}

/// `n` runs to the next frame took the frame counter `n` further, unless the master clock
/// saturated on the way; the master clock never went back.
pub open spec fn frames_later(before: TimingState, after: TimingState, n: nat) -> bool {
    &&& after.frame <= before.frame + n
    &&& after.frame == before.frame + n || after.master_clock == u64::MAX
    &&& after.master_clock >= before.master_clock
}

/// One instruction's worth of ticks, from a position on the screen grid, stays on the grid,
/// moves the master clock forward unless it is saturated, and passes at most one frame end.
proof fn lemma_short_advance(t: TimingState, ticks: nat)
    requires
        t.dot < DOTS_PER_SCANLINE,
        t.scanline < NTSC_SCANLINES_PER_FRAME,
        6 <= ticks <= 102,
    ensures
        advance_state(t, ticks).dot < DOTS_PER_SCANLINE,
        advance_state(t, ticks).scanline < NTSC_SCANLINES_PER_FRAME,
        advance_state(t, ticks).master_clock > t.master_clock || advance_state(t, ticks).master_clock == u64::MAX,
        advance_state(t, ticks).frame == t.frame || advance_state(t, ticks).frame == t.frame + 1,
{
    lemma_advance_keeps_ranges(t, ticks);
    lemma_advance_master_clock(t, ticks);
    lemma_advance_frame(t, ticks);
    let p = frame_position(t) + ticks;
    assert(0 <= p < 2 * frame_ticks());
    assert(p / frame_ticks() <= 1) by (nonlinear_arith)
        requires 0 <= p < 2 * frame_ticks(), frame_ticks() == 89342;
}

/// The CPU went from `before` to `after` by executing one supported instruction whose bus
/// events, starting with the opcode fetch at the program counter, are `trace`.
pub open spec fn executes_instruction(before: Registers, after: Registers, trace: Seq<BusEvent>) -> bool {
    &&& trace.len() >= 1
    &&& rd(trace, 0, bank_addr(before.pbr, before.pc))
    &&& supported_opcode(trace[0].value)
    &&& instruction_sem(trace[0].value, before, after, seq![trace[0]], trace)
}

impl Emulator {
    /// CPU registers.
    pub closed spec fn cpu_regs(&self) -> Registers {
        self.cpu.regs()
    }

    /// System bus state.
    pub closed spec fn system_view(&self) -> SystemBusView {
        self.system@
    }

    /// APU state.
    pub closed spec fn apu_view(&self) -> ApuView {
        self.apu@
    }

    /// Samples buffered since the last frame.
    pub closed spec fn audio_view(&self) -> Seq<i16> {
        self.pending_audio.samples@
    }

    /// The frame buffer.
    pub closed spec fn frame(&self) -> FrameBuffer {
        self.frame_buffer
    }

    /// Configured assets.
    pub closed spec fn spec_assets(&self) -> AssetConfig {
        self.assets
    }

    /// The frame buffer keeps its size and the timing position stays on the screen grid.
    pub closed spec fn wf(&self) -> bool {
        &&& self.frame_buffer.wf()
        &&& self.system@.timing.dot < DOTS_PER_SCANLINE
        &&& self.system@.timing.scanline < NTSC_SCANLINES_PER_FRAME
    }

    /// Load a ROM into the emulator and reset: timing starts over, the audio buffer is empty
    /// and the CPU starts at the cartridge's reset vector.
    pub fn load_rom(&mut self, rom: Cartridge)
        requires
            old(self).wf(),
        ensures
            final(self).wf(),
            rom_loaded(*old(self), rom, *final(self)),
    {
        self.system.install_cartridge(rom);
        self.reset();
    }

    /// Reset subsystem state; the CPU starts at the cartridge reset vector when the mapping
    /// exposes one.
    pub fn reset(&mut self)
        requires
            old(self).wf(),
        ensures
            final(self).wf(),
            final(self).system_view().cartridge == old(self).system_view().cartridge,
            final(self).system_view().timing == (TimingState { master_clock: 0, scanline: 0, dot: 0, frame: 0 }),
            final(self).audio_view().len() == 0,
            final(self).system_view().apu_io == final(self).apu_view().apu_to_cpu,
            match old(self).system_view().cartridge {
                Some(c) => match (c.spec_read_byte(0x00FFFC), c.spec_read_byte(0x00FFFD)) {
                    (Some(lo), Some(hi)) => final(self).cpu_regs().pc == ((lo as u16) | ((hi as u16) << 8u16)),
                    _ => final(self).cpu_regs().pc == 0,
                },
                None => final(self).cpu_regs().pc == 0,
            },
            final(self).cpu_regs() == (Registers { pc: final(self).cpu_regs().pc, ..reset_registers() }),
            final(self).apu_view() == reset_apu_view(old(self).apu_view()),
            exists|cleared: SystemBusView| reset_effect(old(self).system_view(), cleared)
                && final(self).system_view() == (SystemBusView { apu_io: final(self).apu_view().apu_to_cpu, ..cleared }),
            final(self).frame().pixels_view() == Seq::new(229376, |i: int| 0u8),
    {
        self.cpu.reset();
        self.apu.reset();
        self.system.reset();
        let ghost cleared = self.system@;
        self.system.sync_apu_ports_from_runtime(&self.apu);
        match self.system.reset_vector() {
            Some(vector) => self.cpu.set_pc(vector),
            None => {},
        }
        self.pending_audio = AudioFrame::default();
        self.frame_buffer = FrameBuffer::default();
        assert(reset_effect(old(self).system_view(), cleared));
    }

    /// Execute instructions until the frame counter advances, then render the frame.
    pub fn run_until_frame(&mut self) -> (r: Result<()>)
        requires
            old(self).wf(),
        ensures
            final(self).wf(),
            old(self).system_view().cartridge is None ==> (r matches Err(Error::InvalidRom(m)) && m@ == "no ROM loaded"@)
                && final(self).system_view() == old(self).system_view(),
            old(self).system_view().cartridge is Some ==> final(self).system_view().cartridge is Some,
            r matches Err(e) ==> (e is InvalidRom || e is UnsupportedOpcode),
            old(self).system_view().cartridge is Some ==> (r matches Err(e) ==> e is UnsupportedOpcode
                && frame_stopped(*old(self), e)),
            r is Ok ==> frame_run(*old(self), *final(self)),
            r is Ok ==> final(self).frame().pixels_view() == rendered_frame(final(self).system_view()),
            r is Ok ==> final(self).audio_view().len() > 0,
            r is Ok ==> one_frame_later(old(self).system_view().timing, final(self).system_view().timing),
    {
        if self.system.cartridge().is_none() {
            return Err(Error::InvalidRom("no ROM loaded".to_owned()));
        }
        self.pending_audio.samples.clear();
        let start_frame = self.system.timing().frame;
        let ghost mut run: Seq<Emulator> = seq![*self];
        while self.system.timing().frame == start_frame
            invariant
                self.wf(),
                run.len() >= 1,
                starts_from(run[0], *old(self)),
                instruction_run(run),
                run.last() == *self,
                forall|i: int| 0 <= i < run.len() - 1 ==> (#[trigger] run[i]).system_view().timing.frame == start_frame,
                self.system_view().cartridge is Some,
                old(self).system_view().cartridge is Some,
                start_frame == old(self).system_view().timing.frame,
                self.system_view().timing.frame == start_frame || self.system_view().timing.frame == start_frame + 1,
                self.system_view().timing.frame != start_frame ==> self.audio_view().len() > 0,
                self.system_view().timing.master_clock >= old(self).system_view().timing.master_clock,
            ensures
                self.wf(),
                self.system_view().cartridge is Some,
                self.audio_view().len() > 0,
                self.system_view().timing.frame == start_frame + 1
                    || (self.system_view().timing.frame == start_frame && self.system_view().timing.master_clock == u64::MAX),
                self.system_view().timing.master_clock >= old(self).system_view().timing.master_clock,
                run.len() >= 2,
                starts_from(run[0], *old(self)),
                instruction_run(run),
                run.last() == *self,
                forall|i: int| 0 <= i < run.len() - 1 ==> (#[trigger] run[i]).system_view().timing.frame == start_frame,
            decreases u64::MAX - self.system_view().timing.master_clock,
        {
            let before = self.system.timing().master_clock;
            let ghost t0 = self.system_view().timing;
            let ghost prior = *self;
            match self.step_instruction() {
                Ok(()) => {},
                Err(e) => {
                    proof { lemma_run_stopped(*old(self), run, e); }
                    return Err(e);
                },
            }
            proof {
                let ticks = choose|ticks: nat| 6 <= ticks <= 102 && self.system_view().timing == advance_state(t0, ticks);
                lemma_short_advance(t0, ticks);
                lemma_run_push(run, *self, start_frame);
                run = run.push(*self);
            }
            if self.system.timing().master_clock <= before {
                break;
            }
        }
        let ghost last = *self;
        self.system.render_frame(&mut self.frame_buffer);
        assert(same_but_frame(last, *self));
        assert(frame_run(*old(self), *self));
        Ok(())
    }

    /// Step one instruction: the CPU executes against the system bus, then the APU and system
    /// timing advance by six master cycles per bus cycle.
    pub fn step_instruction(&mut self) -> (r: Result<()>)
        requires
            old(self).wf(),
        ensures
            final(self).wf(),
            old(self).system_view().cartridge is None ==> (r matches Err(Error::InvalidRom(m)) && m@ == "no ROM loaded"@)
                && final(self).system_view() == old(self).system_view() && final(self).cpu_regs() == old(self).cpu_regs(),
            old(self).system_view().cartridge is Some ==> final(self).system_view().cartridge is Some,
            old(self).system_view().cartridge is Some ==> (r matches Err(e) ==> refused_step(*old(self), e)
                && final(self).cpu_regs() == old(self).cpu_regs()),
            r is Ok ==> instruction_step(*old(self), *final(self)),
            r is Ok ==> final(self).audio_view().len() > old(self).audio_view().len(),
            r is Ok ==> exists|ticks: nat| 6 <= ticks <= 102
                && final(self).system_view().timing == advance_state(old(self).system_view().timing, ticks),
            r matches Err(e) ==> (e is InvalidRom || e is UnsupportedOpcode),
    {
        if self.system.cartridge().is_none() {
            return Err(Error::InvalidRom("no ROM loaded".to_owned()));
        }
        self.system.sync_apu_ports_from_runtime(&self.apu);
        let ghost before = self.cpu_regs();
        let ghost synced = self.system;
        assert(synced@ == fetch_view(old(self).system_view(), old(self).apu_view()));
        let trace = match self.cpu.step_with_bus(&mut self.system) {
            Ok(t) => t,
            Err(e) => {
                proof {
                    lemma_kept_part(synced@, self.system@);
                    if let Error::UnsupportedOpcode { opcode, address, .. } = e {
                        assert(read_effect(synced@, address, opcode, self.system@));
                    }
                }
                return Err(e);
            },
        };
        proof {
            lemma_kept_part(synced@, self.system@);
            lemma_view_steps(synced, trace@, self.system);
        }
        let ghost after_cpu = self.system@;
        let ghost fetched = choose|f: SystemBus| synced.read_gives(trace@[0].address, trace@[0].value, &f);
        assert(read_effect(synced@, trace@[0].address, trace@[0].value, fetched@));
        let ghost stepped_timing = self.system_view().timing;
        assert(stepped_timing == old(self).system_view().timing);
        assert(executes_instruction(before, self.cpu_regs(), trace@));
        proof {
            lemma_instruction_length(trace@[0].value, before, self.cpu_regs(), seq![trace@[0]], trace@);
        }
        self.system.sync_apu_ports_to_runtime(&mut self.apu);
        let len = trace.len() as u64;
        let master_cycles: u64 = if len > u64::MAX / 6 { u64::MAX - u64::MAX % 6 } else { len * 6 };
        assert(master_cycles == instruction_master_cycles(trace@.len()));
        self.apu.step_master_cycles(master_cycles);
        self.system.sync_apu_ports_from_runtime(&self.apu);
        self.system.advance_master_clocks(master_cycles);
        self.append_audio_samples(master_cycles);
        assert(before == old(self).cpu_regs());
        assert(executes_instruction(old(self).cpu_regs(), self.cpu_regs(), trace@));
        assert(read_effect(fetch_view(old(self).system_view(), old(self).apu_view()), trace@[0].address, trace@[0].value, fetched@));
        assert(self.system_view().timing == advance_state(old(self).system_view().timing, instruction_master_cycles(trace@.len()) as nat));
        assert(self.apu_view().spc700_steps == sat_add(old(self).apu_view().spc700_steps, (instruction_master_cycles(trace@.len()) / 6) as int));
        assert(self.audio_view() == old(self).audio_view() + audio_chunk(instruction_master_cycles(trace@.len()), self.apu_view().spc700_steps));
        proof {
            lemma_advance_keeps_ranges(old(self).system_view().timing, master_cycles as nat);
        }
        assert(6 <= master_cycles as nat <= 102
            && self.system_view().timing == advance_state(old(self).system_view().timing, master_cycles as nat));
        assert(view_steps(fetch_view(old(self).system_view(), old(self).apu_view()), trace@, after_cpu));
        assert(stepped_system(fetch_view(old(self).system_view(), old(self).apu_view()), trace@,
            self.apu_view().apu_to_cpu, self.system_view()));
        proof { reveal(instruction_step); }
        Ok(())
    }

    /// The current framebuffer.
    pub fn framebuffer(&self) -> (f: &FrameBuffer)
        ensures
            *f == self.frame(),
            self.wf() ==> f.wf(),
    {
        &self.frame_buffer
    }

    /// Buffered audio samples.
    pub fn audio_samples(&self) -> (a: &AudioFrame)
        ensures
            a.samples@ == self.audio_view(),
    {
        &self.pending_audio
    }

    /// Save-RAM bytes, when a cartridge is installed.
    pub fn save_ram(&self) -> (r: Option<Vec<u8>>)
        ensures
            self.system_view().cartridge is None ==> r is None,
            self.system_view().cartridge is Some ==> (r matches Some(v) && v@ == self.system_view().save_ram),
            self.system_view().cartridge matches Some(c) ==> (r matches Some(v) && v@.len() == spec_ram_size_bytes(c.header_view())),
    {
        match self.system.save_ram_len() {
            Some(_) => Some(vstd::slice::slice_to_vec(self.system.save_ram())),
            None => None,
        }
    }

    /// Install externally persisted save RAM for the loaded cartridge.
    pub fn load_save_ram(&mut self, bytes: &[u8]) -> (r: Result<()>)
        requires
            old(self).wf(),
        ensures
            final(self).wf(),
            old(self).system_view().cartridge is None ==> (r matches Err(Error::InvalidRom(m)) && m@ == "no ROM loaded"@),
            r is Ok <==> (old(self).system_view().cartridge is Some && bytes@.len() == old(self).system_view().save_ram.len()),
            old(self).system_view().cartridge matches Some(c) ==> (r is Ok <==> bytes@.len() == spec_ram_size_bytes(c.header_view())),
            r is Ok ==> final(self).system_view() == (SystemBusView { save_ram: bytes@, ..old(self).system_view() }),
            r is Err ==> final(self).system_view() == old(self).system_view(),
            final(self).cpu_regs() == old(self).cpu_regs(),
            final(self).apu_view() == old(self).apu_view(),
            old(self).system_view().cartridge is Some ==> (r matches Err(e) ==> e == (Error::InvalidSaveRam {
                expected: old(self).system_view().save_ram.len() as usize,
                actual: bytes@.len() as usize,
            })),
    {
        if self.system.cartridge().is_none() {
            return Err(Error::InvalidRom("no ROM loaded".to_owned()));
        }
        self.system.load_save_ram(bytes)
    }

    /// Configured asset paths.
    pub fn assets(&self) -> (a: &AssetConfig)
        ensures
            *a == self.spec_assets(),
    {
        &self.assets
    }

    /// A status snapshot of the APU.
    pub fn apu_status(&self) -> (s: ApuStatus)
        ensures
            s.has_ipl_rom == self.apu_view().ipl_rom is Some,
            s.configured_ipl_path == self.apu_view().configured_ipl_path,
            s.spc700_steps == self.apu_view().spc700_steps,
    {
        self.apu.status()
    }

    /// Install IPL firmware bytes read by the host.
    pub fn install_apu_ipl_rom(&mut self, data: Vec<u8>, source: Option<String>) -> (r: Result<()>)
        requires
            old(self).wf(),
        ensures
            final(self).wf(),
            r is Ok <==> data@.len() == crate::apu::SPC700_IPL_ROM_LEN,
            r is Ok ==> final(self).apu_view().ipl_rom == Some(data@),
    {
        self.apu.install_ipl_rom_bytes(data, source)
    }

    /// The firmware path the APU is configured with.
    pub fn configured_ipl_path(&self) -> (p: &Option<String>)
        ensures
            *p == self.apu_view().configured_ipl_path,
    {
        self.apu.configured_ipl_path()
    }

    /// Load the configured SPC700 IPL ROM, given what the host read at the configured path.
    pub fn load_apu_ipl_rom(&mut self, read: Result<Vec<u8>>) -> (r: Result<bool>)
        requires
            old(self).wf(),
        ensures
            final(self).wf(),
            final(self).system_view() == old(self).system_view(),
            final(self).cpu_regs() == old(self).cpu_regs(),
            final(self).spec_assets() == old(self).spec_assets(),
            old(self).apu_view().configured_ipl_path is None ==> r == Ok::<bool, Error>(false)
                && final(self).apu_view() == (ApuView { ipl_rom: None, ..old(self).apu_view() }),
            old(self).apu_view().configured_ipl_path is Some ==> match read {
                Err(e) => r == Err::<bool, Error>(e) && final(self).apu_view() == old(self).apu_view(),
                Ok(data) => {
                    &&& (r is Ok <==> data@.len() == crate::apu::SPC700_IPL_ROM_LEN)
                    &&& r is Ok ==> r == Ok::<bool, Error>(true)
                        && final(self).apu_view() == (ApuView { ipl_rom: Some(data@), ..old(self).apu_view() })
                    &&& r is Err ==> final(self).apu_view() == old(self).apu_view()
                },
            },
    {
        self.apu.load_configured_ipl_rom(read)
    }

    /// Host-side write access.
    pub fn host_write_u8(&mut self, address: u32, value: u8)
        requires
            old(self).wf(),
        ensures
            final(self).wf(),
            final(self).system_view().cartridge == old(self).system_view().cartridge,
            write_effect(old(self).system_view(), address, value, final(self).system_view()),
            host_write_step(*old(self), (address, value), *final(self)),
            final(self).system_view().timing == old(self).system_view().timing,
            final(self).cpu_regs() == old(self).cpu_regs(),
            final(self).apu_view() == old(self).apu_view(),
            final(self).frame() == old(self).frame(),
            final(self).audio_view() == old(self).audio_view(),
    {
        let ghost before = self.system@;
        self.system.write(address, value);
        proof { lemma_kept_part(before, self.system@); }
    }

    /// Host-side read access.
    pub fn host_read_u8(&mut self, address: u32) -> (v: u8)
        requires
            old(self).wf(),
        ensures
            final(self).wf(),
            final(self).system_view().open_bus == v,
            final(self).system_view().cartridge == old(self).system_view().cartridge,
            read_effect(old(self).system_view(), address, v, final(self).system_view()),
            host_read_step(*old(self), address, v, *final(self)),
            final(self).system_view().timing == old(self).system_view().timing,
            final(self).cpu_regs() == old(self).cpu_regs(),
            final(self).apu_view() == old(self).apu_view(),
            final(self).frame() == old(self).frame(),
            final(self).audio_view() == old(self).audio_view(),
    {
        let ghost before = self.system@;
        let v = self.system.read(address);
        proof { lemma_kept_part(before, self.system@); }
        v
    }

    /// The CPU register file.
    pub fn cpu_registers(&self) -> (r: &Registers)
        ensures
            *r == self.cpu_regs(),
    {
        self.cpu.registers()
    }

    /// The timing state.
    pub fn timing(&self) -> (t: &TimingState)
        ensures
            *t == self.system_view().timing,
    {
        self.system.timing()
    }

    /// Set controller-1 state from a host/frontend.
    pub fn set_controller1(&mut self, state: ControllerState)
        requires
            old(self).wf(),
        ensures
            final(self).wf(),
            final(self).system_view().cartridge == old(self).system_view().cartridge,
            final(self).system_view().joypad.controller1 == state,
    {
        self.system.set_controller1(state);
    }

    fn append_audio_samples(&mut self, master_cycles: u64)
        ensures
            final(self).wf() == old(self).wf(),
            final(self).audio_view() == old(self).audio_view() + audio_chunk(master_cycles, old(self).apu_view().spc700_steps),
            final(self).system_view() == old(self).system_view(),
            final(self).apu_view() == old(self).apu_view(),
            final(self).cpu_regs() == old(self).cpu_regs(),
            final(self).frame() == old(self).frame(),
    {
        let pairs: u64 = if master_cycles / 6 > 1 { master_cycles / 6 } else { 1 };
        let phase = self.apu.status().spc700_steps as i16;
        let low5: i16 = phase & 0x1F;
        assert(0 <= low5 <= 31 && low5 as int == (phase as int) % 32) by (bit_vector)
            requires
                low5 == phase & 0x1F,
        ;
        let amplitude: i16 = (low5 + 1) * 192;
        let ghost start = self.pending_audio.samples@;
        let mut index: u64 = 0;
        while index < pairs
            invariant
                index <= pairs,
                self.frame_buffer == old(self).frame_buffer,
                self.system@ == old(self).system@,
                self.cpu.regs() == old(self).cpu.regs(),
                self.apu@ == old(self).apu@,
                start == old(self).pending_audio.samples@,
                pairs == if master_cycles / 6 > 1 { master_cycles / 6 } else { 1 },
                amplitude as int == ((self.apu_view().spc700_steps as i16) as int % 32 + 1) * 192,
                self.pending_audio.samples@ == start + audio_chunk(master_cycles, self.apu_view().spc700_steps).subrange(0, 2 * index as int),
            decreases pairs - index,
        {
            let sample: i16 = if index % 2 == 0 { amplitude } else { -amplitude };
            self.pending_audio.samples.push(sample);
            self.pending_audio.samples.push(sample);
            index = index + 1;
        }
    }

    /// The loaded cartridge, if any.
    pub fn cartridge(&self) -> (c: Option<&Cartridge>)
        ensures
            match (c, self.system_view().cartridge) {
                (Some(a), Some(b)) => *a == b,
                (None, None) => true,
                _ => false,
            },
    {
        self.system.cartridge()
    }
}

} // verus!
