//! S-DD1, OBC1 and S-RTC register models.
use vstd::prelude::*;
use std::collections::VecDeque;

use crate::cartridge::Mapper;

verus! {

/// Register offset of a LoROM chip window: banks `$00-$3F` (and mirrors), offsets
/// `base..=last`.
pub open spec fn spec_decode_window(mapper: Mapper, address: u32, base: int, last: int) -> Option<int> {
    let bank = (address as int / 0x10000) % 0x80;
    let offset = address as int % 0x10000;
    if mapper != Mapper::LoRom || bank > 0x3F || !(base <= offset <= last) {
        None
    } else {
        Some(offset - base)
    }
}

fn decode_window(mapper: Mapper, address: u32, base: u32, last: u32) -> (r: Option<u16>)
    requires
        base <= last <= 0xFFFF,
    ensures
        match (r, spec_decode_window(mapper, address, base as int, last as int)) {
            (Some(i), Some(j)) => i as int == j,
            (None, None) => true,
            _ => false,
        },
{
    let bank = (address / 0x10000) % 0x80;
    let offset = address % 0x10000;
    if mapper != Mapper::LoRom || bank > 0x3F || !(base <= offset && offset <= last) {
        return None;
    }
    Some((offset - base) as u16)
}

// ---------------------------------------------------------------------------------------------
// S-DD1

/// Bytes a run-length stream expands to, starting at token `i`: a token with bit 7 set repeats
/// the next byte `(token & 0x7F) + 1` times (zero past the end); otherwise the next
/// `token + 1` bytes are copied (those past the end are skipped).
pub open spec fn rle_expand(input: Seq<u8>, i: int) -> Seq<u8>
    decreases input.len() - i,
{
    if i < 0 || i >= input.len() {
        seq![]
    } else {
        let token = input[i];
        if token >= 0x80 {
            let count = (token - 0x80) + 1;
            let value = if i + 1 < input.len() { input[i + 1] } else { 0u8 };
            Seq::new(count as nat, |k: int| value) + (if i + 2 < input.len() { rle_expand(input, i + 2) } else { seq![] })
        } else {
            let count = token + 1;
            let end = if i + 1 + count <= input.len() { i + 1 + count } else { input.len() as int };
            input.subrange(i + 1, end) + (if i + 1 + count < input.len() { rle_expand(input, i + 1 + count) } else { seq![] })
        }
    }
}

/// Output of the decompressor for a mode: odd modes expand run-length tokens, even modes copy.
pub open spec fn spec_decompress(mode: u8, input: Seq<u8>) -> Seq<u8> {
    if mode % 2 == 0 { input } else { rle_expand(input, 0) }
}

/// Decompress an input stream.
pub fn decompress_stream(mode: u8, input: &Vec<u8>) -> (out: Vec<u8>)
    ensures
        out@ == spec_decompress(mode, input@),
{
    if mode % 2 == 0 {
        let copy = input.clone();
        assert(copy@ =~= input@);
        return copy;
    }
    let n = input.len();
    let mut output: Vec<u8> = Vec::new();
    let mut index: usize = 0;
    while index < n
        invariant
            n == input@.len(),
            index <= n,
            output@ + rle_expand(input@, index as int) == rle_expand(input@, 0),
        decreases n - index,
    {
        let remaining = n - index;
        let token = input[index];
        if token >= 0x80 {
            let count: usize = (token - 0x80) as usize + 1;
            let value: u8 = if remaining > 1 { input[index + 1] } else { 0 };
            let ghost before = output@;
            let mut k: usize = 0;
            while k < count
                invariant
                    k <= count,
                    output@ == before + Seq::new(k as nat, |j: int| value),
                decreases count - k,
            {
                output.push(value);
                k = k + 1;
                assert(output@ =~= before + Seq::new(k as nat, |j: int| value));
            }
            if remaining > 2 {
                assert(output@ + rle_expand(input@, index + 2) =~= before + rle_expand(input@, index as int));
                index = index + 2;
            } else {
                assert(output@ + rle_expand(input@, n as int) =~= before + rle_expand(input@, index as int));
                index = n;
            }
        } else {
            let count: usize = token as usize + 1;
            let ghost before = output@;
            let mut k: usize = 0;
            while k < count
                invariant
                    k <= count,
                    count == token + 1,
                    remaining == n - index,
                    index < n,
                    n == input@.len(),
                    output@ == before + input@.subrange(index + 1, if index + 1 + k <= n { index + 1 + k } else { n as int }),
                decreases count - k,
            {
                if k + 1 < remaining {
                    output.push(input[index + 1 + k]);
                }
                k = k + 1;
                assert(output@ =~= before + input@.subrange(index + 1, if index + 1 + k <= n { index + 1 + k } else { n as int }));
            }
            if count + 1 < remaining {
                assert(output@ + rle_expand(input@, index + 1 + count) =~= before + rle_expand(input@, index as int));
                index = index + 1 + count;
            } else {
                assert(output@ + rle_expand(input@, n as int) =~= before + rle_expand(input@, index as int));
                index = n;
            }
        }
    }
    assert(rle_expand(input@, index as int) =~= seq![]);
    assert(output@ =~= rle_expand(input@, 0));
    output
}

/// Abstract state of the S-DD1.
pub struct Sdd1View {
    /// Decompression enabled.
    pub enabled: bool,
    /// Mode byte.
    pub mode: u8,
    /// Bytes written to the input port.
    pub input: Seq<u8>,
    /// Bytes waiting at the output port.
    pub output: Seq<u8>,
    /// Master cycles until the input is decompressed.
    pub busy_cycles: u64,
}

/// S-DD1 register and decompression stream model.
#[derive(Debug, Clone)]
pub struct Sdd1Coprocessor {
    enabled: bool,
    mode: u8,
    input: Vec<u8>,
    output: VecDeque<u8>,
    busy_cycles: u64,
}

impl View for Sdd1Coprocessor {
    type V = Sdd1View;

    closed spec fn view(&self) -> Sdd1View {
        Sdd1View {
            enabled: self.enabled,
            mode: self.mode,
            input: self.input@,
            output: self.output@,
            busy_cycles: self.busy_cycles,
        }
    }
}

/// The S-DD1 at power-on.
pub open spec fn initial_sdd1() -> Sdd1View {
    Sdd1View { enabled: false, mode: 0, input: seq![], output: seq![], busy_cycles: 0 }
}

/// State and value after a read of register `offset` (`$4800 + offset`).
pub open spec fn spec_sdd1_read(v: Sdd1View, offset: int) -> (Sdd1View, u8) {
    if offset == 0 {
        (v, if v.enabled { 1u8 } else { 0u8 })
    } else if offset == 1 {
        (v, v.mode)
    } else if offset == 5 {
        if v.output.len() > 0 { (Sdd1View { output: v.output.drop_first(), ..v }, v.output[0]) } else { (v, 0u8) }
    } else if offset == 6 {
        (v, ((if v.enabled { 1int } else { 0 }) + (if v.output.len() > 0 { 0x80int } else { 0 })) as u8)
    } else if offset == 7 {
        (v, if v.output.len() > 0xFF { 0xFFu8 } else { v.output.len() as u8 })
    } else {
        (v, 0u8)
    }
}

/// State after a write of register `offset`.
pub open spec fn spec_sdd1_write(v: Sdd1View, offset: int, value: u8) -> Sdd1View {
    if offset == 0 {
        Sdd1View { enabled: value % 2 == 1, ..v }
    } else if offset == 1 {
        Sdd1View { mode: value, ..v }
    } else if offset == 4 {
        Sdd1View {
            input: v.input.push(value),
            busy_cycles: if v.busy_cycles > u64::MAX - 2 { u64::MAX } else { (v.busy_cycles + 2) as u64 },
            ..v
        }
    } else if offset == 7 {
        Sdd1View { input: seq![], output: seq![], ..v }
    } else {
        v
    }
}

/// State after `clocks` master cycles.
pub open spec fn spec_sdd1_step(v: Sdd1View, clocks: u64) -> Sdd1View {
    if !v.enabled || v.busy_cycles == 0 {
        v
    } else {
        let busy: u64 = if v.busy_cycles > clocks { (v.busy_cycles - clocks) as u64 } else { 0 };
        if busy == 0 && v.output.len() == 0 && v.input.len() > 0 {
            Sdd1View { busy_cycles: busy, output: spec_decompress(v.mode, v.input), input: seq![], ..v }
        } else {
            Sdd1View { busy_cycles: busy, ..v }
        }
    }
}

impl Sdd1Coprocessor {
    /// A fresh S-DD1.
    pub fn new() -> (s: Self)
        ensures
            s@ == initial_sdd1(),
    {
        let s = Sdd1Coprocessor { enabled: false, mode: 0, input: Vec::new(), output: VecDeque::new(), busy_cycles: 0 };
        assert(s@.input =~= seq![] && s@.output =~= seq![]);
        s
    }

    /// Return to the power-on state.
    pub fn reset(&mut self)
        ensures
            final(self)@ == initial_sdd1(),
    {
        self.enabled = false;
        self.mode = 0;
        self.input.clear();
        self.output.clear();
        self.busy_cycles = 0;
        assert(self@.input =~= seq![] && self@.output =~= seq![]);
    }

    /// Service a CPU read of the `$4800-$4807` window.
    pub fn read(&mut self, mapper: Mapper, address: u32) -> (r: Option<u8>)
        ensures
            match spec_decode_window(mapper, address, 0x4800, 0x4807) {
                None => r is None && final(self)@ == old(self)@,
                Some(o) => r == Some(spec_sdd1_read(old(self)@, o).1) && final(self)@ == spec_sdd1_read(old(self)@, o).0,
            },
    {
        let offset = match decode_window(mapper, address, 0x4800, 0x4807) {
            Some(o) => o,
            None => {
                return None;
            },
        };
        if offset == 0x00 {
            Some(if self.enabled { 1 } else { 0 })
        } else if offset == 0x01 {
            Some(self.mode)
        } else if offset == 0x05 {
            match self.output.pop_front() {
                Some(v) => Some(v),
                None => Some(0),
            }
        } else if offset == 0x06 {
            Some((if self.enabled { 1u8 } else { 0u8 }) + (if self.output.len() > 0 { 0x80u8 } else { 0u8 }))
        } else if offset == 0x07 {
            Some(if self.output.len() > 0xFF { 0xFF } else { self.output.len() as u8 })
        } else {
            Some(0)
        }
    }

    /// Service a CPU write to the `$4800-$4807` window.
    pub fn write(&mut self, mapper: Mapper, address: u32, value: u8) -> (handled: bool)
        ensures
            match spec_decode_window(mapper, address, 0x4800, 0x4807) {
                None => !handled && final(self)@ == old(self)@,
                Some(o) => handled && final(self)@ == spec_sdd1_write(old(self)@, o, value),
            },
    {
        let offset = match decode_window(mapper, address, 0x4800, 0x4807) {
            Some(o) => o,
            None => {
                return false;
            },
        };
        if offset == 0x00 {
            self.enabled = value % 2 == 1;
        } else if offset == 0x01 {
            self.mode = value;
        } else if offset == 0x04 {
            self.input.push(value);
            self.busy_cycles = self.busy_cycles.saturating_add(2);
        } else if offset == 0x07 {
            self.input.clear();
            self.output.clear();
            assert(self@.input =~= seq![] && self@.output =~= seq![]);
        }
        true
    }

    /// Let `clocks` master cycles elapse; when the busy time is spent and the output is empty,
    /// the buffered input is decompressed into the output.
    pub fn step(&mut self, clocks: u64)
        ensures
            final(self)@ == spec_sdd1_step(old(self)@, clocks),
    {
        if !self.enabled || self.busy_cycles == 0 {
            return;
        }
        self.busy_cycles = self.busy_cycles.saturating_sub(clocks);
        if self.busy_cycles == 0 && self.output.len() == 0 && self.input.len() > 0 {
            let out = decompress_stream(self.mode, &self.input);
            let mut deque: VecDeque<u8> = VecDeque::new();
            let mut i: usize = 0;
            while i < out.len()
                invariant
                    i <= out@.len(),
                    deque@ == out@.subrange(0, i as int),
                decreases out@.len() - i,
            {
                deque.push_back(out[i]);
                i = i + 1;
            }
            assert(deque@ =~= out@);
            self.output = deque;
            self.input.clear();
            assert(self@.input =~= seq![]);
        }
    }
}

// ---------------------------------------------------------------------------------------------
// OBC1

/// Abstract state of the OBC1.
pub struct Obc1View {
    /// 8 KiB of object RAM.
    pub ram: Seq<u8>,
    /// Base of the object table.
    pub baseptr: u16,
    /// Selected object.
    pub address: u8,
    /// Bit position of the selected object's attribute pair.
    pub shift: u8,
}

/// OBC1 object-window controller backed by 8 KiB of internal RAM.
#[derive(Debug, Clone)]
pub struct Obc1Coprocessor {
    ram: Vec<u8>,
    baseptr: u16,
    address: u8,
    shift: u8,
}

impl View for Obc1Coprocessor {
    type V = Obc1View;

    closed spec fn view(&self) -> Obc1View {
        Obc1View { ram: self.ram@, baseptr: self.baseptr, address: self.address, shift: self.shift }
    }
}

/// The OBC1 at power-on.
pub open spec fn initial_obc1() -> Obc1View {
    Obc1View { ram: Seq::new(0x2000, |i: int| 0u8), baseptr: 0x1C00, address: 0, shift: 0 }
}

/// RAM index of byte `slot` of the selected object.
pub open spec fn object_index(v: Obc1View, slot: int) -> int {
    (v.baseptr + v.address * 4 + slot) % 0x2000
}

/// RAM index of the selected object's attribute byte.
pub open spec fn attribute_index(v: Obc1View) -> int {
    (v.baseptr + v.address / 4 + 0x200) % 0x2000
}

/// Value a read of window offset `offset` observes.
pub open spec fn spec_obc1_read(v: Obc1View, offset: int) -> u8 {
    if 0x1FF0 <= offset <= 0x1FF3 {
        v.ram[object_index(v, offset - 0x1FF0)]
    } else if offset == 0x1FF4 {
        v.ram[attribute_index(v)]
    } else {
        v.ram[offset % 0x2000]
    }
}

/// State after a write of window offset `offset`.
pub open spec fn spec_obc1_write(v: Obc1View, offset: int, value: u8) -> Obc1View {
    if 0x1FF0 <= offset <= 0x1FF3 {
        Obc1View { ram: v.ram.update(object_index(v, offset - 0x1FF0), value), ..v }
    } else if offset == 0x1FF4 {
        let i = attribute_index(v);
        let mask: u8 = !(3u8 << v.shift);
        Obc1View { ram: v.ram.update(i, (v.ram[i] & mask) | ((value & 3u8) << v.shift)), ..v }
    } else if offset == 0x1FF5 {
        Obc1View { baseptr: if value % 2 == 1 { 0x1800 } else { 0x1C00 }, ram: v.ram.update(offset, value), ..v }
    } else if offset == 0x1FF6 {
        Obc1View { address: value % 0x80, shift: ((value % 4) * 2) as u8, ram: v.ram.update(offset, value), ..v }
    } else {
        Obc1View { ram: v.ram.update(offset % 0x2000, value), ..v }
    }
}

impl Obc1Coprocessor {
    /// The RAM holds 8 KiB, the table base is one of its two positions and the shift selects a
    /// bit pair.
    pub open spec fn wf(&self) -> bool {
        &&& self@.ram.len() == 0x2000
        &&& self@.baseptr <= 0x1C00
        &&& self@.shift <= 6
    }

    /// A fresh OBC1.
    pub fn new() -> (o: Self)
        ensures
            o@ == initial_obc1(),
            o.wf(),
    {
        let o = Obc1Coprocessor { ram: vec![0u8; 0x2000], baseptr: 0x1C00, address: 0, shift: 0 };
        assert(o@.ram =~= Seq::new(0x2000, |i: int| 0u8));
        o
    }

    /// Return to the power-on state.
    pub fn reset(&mut self)
        ensures
            final(self)@ == initial_obc1(),
            final(self).wf(),
    {
        *self = Obc1Coprocessor::new();
    }

    /// Service a CPU read of the `$6000-$7FFF` window.
    pub fn read(&mut self, mapper: Mapper, address: u32) -> (r: Option<u8>)
        requires
            old(self).wf(),
        ensures
            final(self)@ == old(self)@,
            r == match spec_decode_window(mapper, address, 0x6000, 0x7FFF) {
                Some(o) => Some(spec_obc1_read(old(self)@, o)),
                None => None::<u8>,
            },
    {
        let offset = match decode_window(mapper, address, 0x6000, 0x7FFF) {
            Some(o) => o as usize,
            None => {
                return None;
            },
        };
        let base = self.baseptr as usize;
        let object = self.address as usize * 4;
        if 0x1FF0 <= offset && offset <= 0x1FF3 {
            Some(self.ram[(base + object + (offset - 0x1FF0)) % 0x2000])
        } else if offset == 0x1FF4 {
            Some(self.ram[(base + self.address as usize / 4 + 0x200) % 0x2000])
        } else {
            Some(self.ram[offset % 0x2000])
        }
    }

    /// Service a CPU write to the `$6000-$7FFF` window.
    pub fn write(&mut self, mapper: Mapper, address: u32, value: u8) -> (handled: bool)
        requires
            old(self).wf(),
        ensures
            final(self).wf(),
            match spec_decode_window(mapper, address, 0x6000, 0x7FFF) {
                None => !handled && final(self)@ == old(self)@,
                Some(o) => handled && final(self)@ == spec_obc1_write(old(self)@, o, value),
            },
    {
        let offset = match decode_window(mapper, address, 0x6000, 0x7FFF) {
            Some(o) => o as usize,
            None => {
                return false;
            },
        };
        let base = self.baseptr as usize;
        let object = self.address as usize * 4;
        if 0x1FF0 <= offset && offset <= 0x1FF3 {
            self.ram.set((base + object + (offset - 0x1FF0)) % 0x2000, value);
        } else if offset == 0x1FF4 {
            let index = (base + self.address as usize / 4 + 0x200) % 0x2000;
            let mask: u8 = !(3u8 << self.shift);
            let updated = (self.ram[index] & mask) | ((value & 3u8) << self.shift);
            self.ram.set(index, updated);
        } else if offset == 0x1FF5 {
            self.baseptr = if value % 2 == 1 { 0x1800 } else { 0x1C00 };
            self.ram.set(offset, value);
        } else if offset == 0x1FF6 {
            self.address = value % 0x80;
            self.shift = (value % 4) * 2;
            self.ram.set(offset, value);
        } else {
            self.ram.set(offset % 0x2000, value);
        }
        true
    }
}

// ---------------------------------------------------------------------------------------------
// S-RTC

/// Abstract state of the S-RTC.
pub struct SRtcView {
    /// Last command byte.
    pub control: u8,
    /// Read position in the latched digits.
    pub index: usize,
    /// Latched digits.
    pub latched: Seq<u8>,
    /// Elapsed seconds.
    pub seconds: u32,
}

/// Digits latched for an elapsed time: seconds, minutes and hours (ones then tens), then a
/// fixed date and the end marker.
pub open spec fn time_digits(seconds: u32) -> Seq<u8> {
    let s = seconds % 60;
    let m = (seconds / 60) % 60;
    let h = (seconds / 3600) % 24;
    seq![
        (s % 10) as u8, (s / 10 % 10) as u8, (m % 10) as u8, (m / 10 % 10) as u8,
        (h % 10) as u8, (h / 10 % 10) as u8, 4u8, 2u8, 0u8, 2u8, 4u8, 6u8, 0x0Fu8,
    ]
}

/// The S-RTC at power-on.
pub open spec fn initial_srtc() -> SRtcView {
    SRtcView { control: 0, index: 0, latched: time_digits(0), seconds: 0 }
}

/// State and value after a read of register `offset` (`$2800 + offset`).
pub open spec fn spec_srtc_read(v: SRtcView, offset: int) -> (SRtcView, u8) {
    if offset == 0 {
        let i = if v.index > 12 { 12 } else { v.index as int };
        (SRtcView { index: if v.index + 1 > 12 { 12 } else { (v.index + 1) as usize }, ..v }, v.latched[i])
    } else if offset == 1 {
        (v, v.control)
    } else {
        (v, 0u8)
    }
}

/// State after a write of register `offset`.
pub open spec fn spec_srtc_write(v: SRtcView, offset: int, value: u8) -> SRtcView {
    if offset != 1 {
        v
    } else if value == 0x0D {
        SRtcView { control: value, latched: time_digits(v.seconds), index: 0, ..v }
    } else if value == 0x0E {
        let seconds: u32 = if v.seconds == u32::MAX { u32::MAX } else { (v.seconds + 1) as u32 };
        SRtcView { control: value, seconds, latched: time_digits(seconds), index: 0 }
    } else if value == 0x0F {
        SRtcView { control: value, index: 0, ..v }
    } else {
        SRtcView { control: value, ..v }
    }
}

/// Deterministic S-RTC serial time source.
#[derive(Debug, Clone)]
pub struct SRtcCoprocessor {
    control: u8,
    index: usize,
    latched: [u8; 13],
    seconds: u32,
}

impl View for SRtcCoprocessor {
    type V = SRtcView;

    closed spec fn view(&self) -> SRtcView {
        SRtcView { control: self.control, index: self.index, latched: self.latched@, seconds: self.seconds }
    }
}

impl SRtcCoprocessor {
    /// The read position stays inside the latched digits.
    pub open spec fn wf(&self) -> bool {
        self@.index <= 12 && self@.latched.len() == 13
    }

    /// A fresh S-RTC with the zero time latched.
    pub fn new() -> (r: Self)
        ensures
            r@ == initial_srtc(),
            r.wf(),
    {
        let mut rtc = SRtcCoprocessor { control: 0, index: 0, latched: [0; 13], seconds: 0 };
        rtc.latch_time();
        rtc
    }

    /// Return to the power-on state.
    pub fn reset(&mut self)
        ensures
            final(self)@ == initial_srtc(),
            final(self).wf(),
    {
        self.control = 0;
        self.index = 0;
        self.seconds = 0;
        self.latch_time();
    }

    /// Service a CPU read of `$2800-$2801`.
    pub fn read(&mut self, mapper: Mapper, address: u32) -> (r: Option<u8>)
        requires
            old(self).wf(),
        ensures
            final(self).wf(),
            match spec_decode_window(mapper, address, 0x2800, 0x2801) {
                None => r is None && final(self)@ == old(self)@,
                Some(o) => r == Some(spec_srtc_read(old(self)@, o).1) && final(self)@ == spec_srtc_read(old(self)@, o).0,
            },
    {
        let offset = match decode_window(mapper, address, 0x2800, 0x2801) {
            Some(o) => o,
            None => {
                return None;
            },
        };
        if offset == 0x00 {
            let i = if self.index > 12 { 12 } else { self.index };
            let value = self.latched[i];
            self.index = if self.index + 1 > 12 { 12 } else { self.index + 1 };
            Some(value)
        } else if offset == 0x01 {
            Some(self.control)
        } else {
            Some(0)
        }
    }

    /// Service a CPU write to `$2800-$2801`: command `$0D` latches the time, `$0E` advances it by
    /// a second and latches it, `$0F` rewinds the read position.
    pub fn write(&mut self, mapper: Mapper, address: u32, value: u8) -> (handled: bool)
        requires
            old(self).wf(),
        ensures
            final(self).wf(),
            match spec_decode_window(mapper, address, 0x2800, 0x2801) {
                None => !handled && final(self)@ == old(self)@,
                Some(o) => handled && final(self)@ == spec_srtc_write(old(self)@, o, value),
            },
    {
        let offset = match decode_window(mapper, address, 0x2800, 0x2801) {
            Some(o) => o,
            None => {
                return false;
            },
        };
        if offset == 0x01 {
            self.control = value;
            if value == 0x0D {
                self.latch_time();
            } else if value == 0x0E {
                self.seconds = self.seconds.saturating_add(1);
                self.latch_time();
            } else if value == 0x0F {
                self.index = 0;
            }
        }
        true
    }

    fn latch_time(&mut self)
        ensures
            final(self)@ == (SRtcView { latched: time_digits(old(self)@.seconds), index: 0, ..old(self)@ }),
            final(self).wf(),
    {
        let seconds = self.seconds % 60;
        let minutes = (self.seconds / 60) % 60;
        let hours = (self.seconds / 3600) % 24;
        self.latched = [
            (seconds % 10) as u8,
            (seconds / 10 % 10) as u8,
            (minutes % 10) as u8,
            (minutes / 10 % 10) as u8,
            (hours % 10) as u8,
            (hours / 10 % 10) as u8,
            4,
            2,
            0,
            2,
            4,
            6,
            0x0F,
        ];
        self.index = 0;
        assert(self.latched@ =~= time_digits(old(self)@.seconds));
    }
}

} // verus!
