//! Cx4 math-command model backed by a register window.
use vstd::prelude::*;

use crate::cartridge::{CartridgeHeader, Mapper};
use super::dsp_math::{spec_vector_distance, vector_distance};
use super::fixed::{clamp16, clamp_i16, q15, q15_mul, sat_add, sat_sub, saturating_add16, saturating_sub16};
use super::trig::TrigTable;

verus! {

const CX4_STATUS_READY: u8 = 0x80;
const CX4_COMMAND_OFFSET: usize = 0x1F40;
const CX4_STATUS_OFFSET: usize = 0x1F41;
const CX4_RAM_LEN: usize = 0x2000;

/// Abstract state of the Cx4.
pub struct Cx4View {
    /// The 8 KiB register window.
    pub ram: Seq<u8>,
    /// Master cycles until the pending command runs.
    pub busy_cycles: u64,
    /// Command written to `$7F40` and not yet run.
    pub pending_command: Option<u8>,
    /// Sine and cosine tables.
    pub trig: TrigTable,
}

/// Window index of a CPU address: LoROM banks `$00-$3F` (and mirrors), offsets `$6000-$7FFF`.
pub open spec fn spec_decode_cx4(mapper: Mapper, address: u32) -> Option<int> {
    let bank = (address as int / 0x10000) % 0x80;
    let offset = address as int % 0x10000;
    if mapper != Mapper::LoRom || bank > 0x3F || !(0x6000 <= offset <= 0x7FFF) {
        None
    } else {
        Some(offset - 0x6000)
    }
}

/// Master cycles a command keeps the Cx4 busy.
pub open spec fn spec_cx4_latency(command: u8) -> u64 {
    if command == 0x10 { 10 } else if command == 0x13 || command == 0x1F { 18 } else { 4 }
}

/// Little-endian signed word at `index`.
pub open spec fn word_at(ram: Seq<u8>, index: int) -> i16 {
    (ram[index] as int + 256 * ram[index + 1] as int) as i16
}

/// `ram` with a little-endian signed word stored at `index`.
pub open spec fn with_word(ram: Seq<u8>, index: int, value: i16) -> Seq<u8> {
    ram.update(index, (value as u16 % 256) as u8).update(index + 1, (value as u16 / 256) as u8)
}

/// A word stored with `with_word` reads back, and words elsewhere stay.
pub proof fn lemma_word_roundtrip(ram: Seq<u8>, index: int, value: i16, other: int)
    requires
        0 <= index,
        index + 1 < ram.len(),
        0 <= other,
        other + 1 < ram.len(),
    ensures
        word_at(with_word(ram, index, value), index) == value,
        (other + 1 < index || index + 1 < other) ==> word_at(with_word(ram, index, value), other) == word_at(ram, other),
{
    let u = value as u16;
    let lo = (u % 256) as u8;
    let hi = (u / 256) as u8;
    assert(lo as u16 + 256 * (hi as u16) == u) by (bit_vector)
        requires
            lo == (u % 256) as u8,
            hi == (u / 256) as u8,
    ;
    assert((u as int) as i16 == value) by (bit_vector)
        requires
            u == value as u16,
    ;
    let w = with_word(ram, index, value);
    assert(w[index] == lo && w[index + 1] == hi);
    assert(lo as int + 256 * hi as int == u as int);
}

/// Quotient rounded toward zero (`d > 0`).
pub open spec fn trunc_div(n: int, d: int) -> int {
    if n >= 0 { n / d } else { -((-n) / d) }
}

/// Window contents after running a command.
pub open spec fn spec_cx4_execute(ram: Seq<u8>, command: u8, trig: TrigTable) -> Seq<u8> {
    if command == 0x10 {
        let length = choose|d: i16| spec_vector_distance(word_at(ram, 0), word_at(ram, 2), word_at(ram, 4), d);
        with_word(ram, 0x10, length)
    } else if command == 0x13 {
        let angle = word_at(ram, 0);
        let x = word_at(ram, 2);
        let y = word_at(ram, 4);
        let sin = trig.spec_sin(angle);
        let cos = trig.spec_cos(angle);
        with_word(with_word(ram, 0x10, sat_sub(q15(x, cos), q15(y, sin))), 0x12, sat_add(q15(x, sin), q15(y, cos)))
    } else if command == 0x1F {
        let x = word_at(ram, 0);
        let y = word_at(ram, 2);
        let z: i16 = if word_at(ram, 4) < 1 { 1 } else { word_at(ram, 4) };
        let focal: i16 = if word_at(ram, 6) < 1 { 1 } else { word_at(ram, 6) };
        with_word(
            with_word(
                with_word(ram, 0x10, clamp16(trunc_div(x * focal, z as int))),
                0x12,
                clamp16(trunc_div(y * focal, z as int)),
            ),
            0x14,
            z,
        )
    } else {
        ram.update(0x1F41, 0x80)
    }
}

/// The Cx4 after `clocks` master cycles elapse: an idle chip stays as it is; a busy one counts
/// its busy time down, and once it is spent runs the pending command and shows ready with a
/// result (`0x81`) in the status byte.
pub open spec fn cx4_after(v: Cx4View, clocks: u64) -> Cx4View {
    if v.busy_cycles == 0 {
        v
    } else if v.busy_cycles > clocks {
        Cx4View { busy_cycles: (v.busy_cycles - clocks) as u64, ..v }
    } else {
        Cx4View {
            ram: (match v.pending_command {
                Some(c) => spec_cx4_execute(v.ram, c, v.trig),
                None => v.ram,
            }).update(0x1F41, 0x81),
            busy_cycles: 0,
            pending_command: None,
            ..v
        }
    }
}

/// Master cycles handed out over a run of steps, in total.
pub open spec fn total_clocks(steps: Seq<u64>) -> int
    decreases steps.len(),
{
    if steps.len() == 0 {
        0
    } else {
        total_clocks(steps.drop_last()) + steps.last()
    }
}

/// The Cx4 after each of `steps` in turn.
pub open spec fn cx4_after_steps(v: Cx4View, steps: Seq<u64>) -> Cx4View
    decreases steps.len(),
{
    if steps.len() == 0 {
        v
    } else {
        cx4_after(cx4_after_steps(v, steps.drop_last()), steps.last())
    }
}

/// The Cx4 right after a CPU write of `command` to `$7F40`.
pub open spec fn cx4_command_written(v: Cx4View, command: u8) -> Cx4View {
    Cx4View {
        ram: v.ram.update(0x1F40, command).update(0x1F41, 0),
        pending_command: Some(command),
        busy_cycles: spec_cx4_latency(command),
        ..v
    }
}

/// After a command is written to `$7F40`, the status byte at `$7F41` reads zero (busy) while the
/// steps since have handed out less than the command's latency in total, and `0x81` (ready)
/// once they have handed out at least that much.
pub proof fn lemma_cx4_command_latency(v: Cx4View, command: u8, steps: Seq<u64>)
    requires
        v.ram.len() == 0x2000,
    ensures
        cx4_after_steps(cx4_command_written(v, command), steps).ram[0x1F41]
            == if total_clocks(steps) < spec_cx4_latency(command) { 0u8 } else { 0x81u8 },
{
    let w = cx4_command_written(v, command);
    assert(w.ram[0x1F41] == 0);
    lemma_cx4_countdown(w, steps);
}

proof fn lemma_cx4_countdown(w: Cx4View, steps: Seq<u64>)
    requires
        w.ram.len() == 0x2000,
        w.busy_cycles > 0,
        w.ram[0x1F41] == 0,
    ensures
        total_clocks(steps) < w.busy_cycles ==> cx4_after_steps(w, steps)
            == (Cx4View { busy_cycles: (w.busy_cycles - total_clocks(steps)) as u64, ..w }),
        total_clocks(steps) >= w.busy_cycles ==> cx4_after_steps(w, steps).busy_cycles == 0
            && cx4_after_steps(w, steps).ram[0x1F41] == 0x81,
        total_clocks(steps) >= 0,
    decreases steps.len(),
{
    if steps.len() > 0 {
        lemma_cx4_countdown(w, steps.drop_last());
        let before = cx4_after_steps(w, steps.drop_last());
        if total_clocks(steps.drop_last()) < w.busy_cycles {
            let ran = match before.pending_command {
                Some(c) => spec_cx4_execute(before.ram, c, before.trig),
                None => before.ram,
            };
            lemma_cx4_execute_len(before.ram, before.pending_command, before.trig);
            assert(ran.len() == 0x2000);
        }
    }
}

proof fn lemma_cx4_execute_len(ram: Seq<u8>, pending: Option<u8>, trig: TrigTable)
    requires
        ram.len() == 0x2000,
    ensures
        (match pending {
            Some(c) => spec_cx4_execute(ram, c, trig),
            None => ram,
        }).len() == 0x2000,
{
}

/// The projection command (`0x1F`) divides x and y alike by the depth: with the depth and the
/// focal length the words at offsets 4 and 6 raised to at least 1, the word at `0x10` becomes
/// `x * focal / depth` and the word at `0x12` becomes `y * focal / depth` (rounded toward zero,
/// saturated to 16 bits), x and y being the words at offsets 0 and 2; the word at `0x14` holds
/// the depth used. Swapping x and y swaps the two results.
pub proof fn lemma_cx4_projection(ram: Seq<u8>, trig: TrigTable)
    requires
        ram.len() == 0x2000,
    ensures
        ({
            let out = spec_cx4_execute(ram, 0x1F, trig);
            let depth = if word_at(ram, 4) < 1 { 1int } else { word_at(ram, 4) as int };
            let focal = if word_at(ram, 6) < 1 { 1int } else { word_at(ram, 6) as int };
            &&& word_at(out, 0x10) == clamp16(trunc_div(word_at(ram, 0) as int * focal, depth))
            &&& word_at(out, 0x12) == clamp16(trunc_div(word_at(ram, 2) as int * focal, depth))
            &&& word_at(out, 0x14) as int == depth
        }),
{
    let x = word_at(ram, 0);
    let y = word_at(ram, 2);
    let z: i16 = if word_at(ram, 4) < 1 { 1 } else { word_at(ram, 4) };
    let focal: i16 = if word_at(ram, 6) < 1 { 1 } else { word_at(ram, 6) };
    let a = clamp16(trunc_div(x * focal, z as int));
    let b = clamp16(trunc_div(y * focal, z as int));
    let r1 = with_word(ram, 0x10, a);
    let r2 = with_word(r1, 0x12, b);
    let r3 = with_word(r2, 0x14, z);
    lemma_word_roundtrip(ram, 0x10, a, 0x10);
    lemma_word_roundtrip(r1, 0x12, b, 0x10);
    lemma_word_roundtrip(r2, 0x14, z, 0x10);
    lemma_word_roundtrip(r2, 0x14, z, 0x12);
    assert(r3 == spec_cx4_execute(ram, 0x1F, trig));
}

/// Bounded Cx4 math-command model.
#[derive(Debug, Clone)]
pub struct Cx4Coprocessor {
    ram: Vec<u8>,
    busy_cycles: u64,
    pending_command: Option<u8>,
    trig: TrigTable,
}

impl View for Cx4Coprocessor {
    type V = Cx4View;

    closed spec fn view(&self) -> Cx4View {
        Cx4View {
            ram: self.ram@,
            busy_cycles: self.busy_cycles,
            pending_command: self.pending_command,
            trig: self.trig,
        }
    }
}

/// The window of a fresh or reset Cx4: all zero but the ready status byte.
pub open spec fn initial_cx4_ram() -> Seq<u8> {
    Seq::new(0x2000, |i: int| if i == 0x1F41 { 0x80u8 } else { 0u8 })
}

fn read_i16(ram: &Vec<u8>, index: usize) -> (w: i16)
    requires
        index < 0x1FFF,
        ram@.len() == 0x2000,
    ensures
        w == word_at(ram@, index as int),
{
    (ram[index] as u16 + 256 * ram[index + 1] as u16) as i16
}

fn write_i16(ram: &mut Vec<u8>, index: usize, value: i16)
    requires
        index < 0x1FFF,
        old(ram)@.len() == 0x2000,
    ensures
        final(ram)@ == with_word(old(ram)@, index as int, value),
        final(ram)@.len() == 0x2000,
{
    let bits = value as u16;
    ram.set(index, (bits % 256) as u8);
    ram.set(index + 1, (bits / 256) as u8);
}

fn fresh_ram() -> (ram: Vec<u8>)
    ensures
        ram@ == initial_cx4_ram(),
{
    let mut ram = vec![0u8; CX4_RAM_LEN];
    ram.set(CX4_STATUS_OFFSET, CX4_STATUS_READY);
    assert(ram@ =~= initial_cx4_ram());
    ram
}

fn scaled_projection(v: i16, focal: i16, z: i16) -> (r: i16)
    requires
        z >= 1,
        focal >= 1,
    ensures
        r == clamp16(trunc_div(v * focal, z as int)),
{
    assert(-0x4000_0000 <= v * focal <= 0x4000_0000) by (nonlinear_arith)
        requires
            -32768 <= v <= 32767,
            1 <= focal <= 32767,
    ;
    let n: i64 = v as i64 * focal as i64;
    let q: i64 = if n >= 0 { n / z as i64 } else { -((-n) / z as i64) };
    if q < -32768 {
        -32768
    } else if q > 32767 {
        32767
    } else {
        q as i16
    }
}

impl Cx4Coprocessor {
    /// The window holds 8 KiB.
    pub open spec fn wf(&self) -> bool {
        self@.ram.len() == 0x2000
    }

    /// Build the Cx4 for a cartridge header, with trigonometric tables for its rotation command.
    pub fn new(header: &CartridgeHeader, trig: TrigTable) -> (c: Self)
        ensures
            c@.ram == initial_cx4_ram(),
            c@.busy_cycles == 0,
            c@.pending_command is None,
            c@.trig == trig,
            c.wf(),
    {
        let _ = header;
        Cx4Coprocessor { ram: fresh_ram(), busy_cycles: 0, pending_command: None, trig }
    }

    /// Return to the power-on state.
    pub fn reset(&mut self)
        ensures
            final(self)@.ram == initial_cx4_ram(),
            final(self)@.busy_cycles == 0,
            final(self)@.pending_command is None,
            final(self)@.trig == old(self)@.trig,
            final(self).wf(),
    {
        self.ram = fresh_ram();
        self.busy_cycles = 0;
        self.pending_command = None;
    }

    /// Service a CPU read of the window.
    pub fn read(&mut self, mapper: Mapper, address: u32) -> (r: Option<u8>)
        requires
            old(self).wf(),
        ensures
            final(self)@ == old(self)@,
            r == match spec_decode_cx4(mapper, address) {
                Some(i) => Some(old(self)@.ram[i]),
                None => None::<u8>,
            },
    {
        match decode_cx4(mapper, address) {
            Some(index) => Some(self.ram[index]),
            None => None,
        }
    }

    /// Service a CPU write to the window; a write to `$7F40` starts a command.
    pub fn write(&mut self, mapper: Mapper, address: u32, value: u8) -> (handled: bool)
        requires
            old(self).wf(),
        ensures
            final(self).wf(),
            handled == spec_decode_cx4(mapper, address) is Some,
            match spec_decode_cx4(mapper, address) {
                None => final(self)@ == old(self)@,
                Some(i) => if i == 0x1F40 {
                    final(self)@ == cx4_command_written(old(self)@, value)
                } else {
                    final(self)@ == (Cx4View { ram: old(self)@.ram.update(i, value), ..old(self)@ })
                },
            },
    {
        let index = match decode_cx4(mapper, address) {
            Some(index) => index,
            None => {
                return false;
            },
        };
        self.ram.set(index, value);
        if index == CX4_COMMAND_OFFSET {
            self.pending_command = Some(value);
            self.busy_cycles = command_latency(value);
            self.ram.set(CX4_STATUS_OFFSET, 0);
        }
        true
    }

    /// Let `clocks` master cycles elapse; when the busy time is spent the pending command runs
    /// and the status byte shows ready with a result.
    pub fn step(&mut self, clocks: u64)
        requires
            old(self).wf(),
        ensures
            final(self).wf(),
            final(self)@ == cx4_after(old(self)@, clocks),
    {
        if self.busy_cycles == 0 {
            return;
        }
        self.busy_cycles = self.busy_cycles.saturating_sub(clocks);
        if self.busy_cycles != 0 {
            return;
        }
        let pending = self.pending_command;
        self.pending_command = None;
        if let Some(command) = pending {
            self.execute(command);
        }
        self.ram.set(CX4_STATUS_OFFSET, 0x81);
    }

    fn execute(&mut self, command: u8)
        requires
            old(self).wf(),
        ensures
            final(self).wf(),
            final(self)@ == (Cx4View { ram: spec_cx4_execute(old(self)@.ram, command, old(self)@.trig), ..old(self)@ }),
    {
        if command == 0x10 {
            let x = read_i16(&self.ram, 0);
            let y = read_i16(&self.ram, 2);
            let z = read_i16(&self.ram, 4);
            let length = vector_distance(x, y, z);
            proof {
                super::dsp_command::lemma_distance_unique(x, y, z, length);
            }
            write_i16(&mut self.ram, 0x10, length);
        } else if command == 0x13 {
            let angle = read_i16(&self.ram, 0);
            let x = read_i16(&self.ram, 2);
            let y = read_i16(&self.ram, 4);
            let sin = self.trig.sin(angle);
            let cos = self.trig.cos(angle);
            let out_x = saturating_sub16(q15_mul(x, cos), q15_mul(y, sin));
            let out_y = saturating_add16(q15_mul(x, sin), q15_mul(y, cos));
            write_i16(&mut self.ram, 0x10, out_x);
            write_i16(&mut self.ram, 0x12, out_y);
        } else if command == 0x1F {
            let x = read_i16(&self.ram, 0);
            let y = read_i16(&self.ram, 2);
            let raw_z = read_i16(&self.ram, 4);
            let raw_focal = read_i16(&self.ram, 6);
            let z: i16 = if raw_z < 1 { 1 } else { raw_z };
            let focal: i16 = if raw_focal < 1 { 1 } else { raw_focal };
            let screen_x = scaled_projection(x, focal, z);
            let screen_y = scaled_projection(y, focal, z);
            write_i16(&mut self.ram, 0x10, screen_x);
            write_i16(&mut self.ram, 0x12, screen_y);
            write_i16(&mut self.ram, 0x14, z);
        } else {
            self.ram.set(CX4_STATUS_OFFSET, CX4_STATUS_READY);
        }
    }
}

fn decode_cx4(mapper: Mapper, address: u32) -> (r: Option<usize>)
    ensures
        match (r, spec_decode_cx4(mapper, address)) {
            (Some(i), Some(j)) => i as int == j && i < 0x2000,
            (None, None) => true,
            _ => false,
        },
{
    let bank = (address / 0x10000) % 0x80;
    let offset = address % 0x10000;
    if mapper != Mapper::LoRom || bank > 0x3F || !(0x6000 <= offset && offset <= 0x7FFF) {
        return None;
    }
    Some((offset - 0x6000) as usize)
}

fn command_latency(command: u8) -> (n: u64)
    ensures
        n == spec_cx4_latency(command),
{
    if command == 0x10 {
        10
    } else if command == 0x13 || command == 0x1F {
        18
    } else {
        4
    }
}

} // verus!
