//! DSP-family runtime model: a byte-wide register window over a word-oriented command
//! processor with operand collection, busy latency and result buffering.
use vstd::prelude::*;
use std::collections::VecDeque;

use crate::cartridge::{CartridgeHeader, Mapper};
use crate::cartridge::header::{spec_ram_size_bytes, spec_rom_size_bytes};
use crate::text::{chars_of, contains_seq, contains_upper, upper_seq};
use super::dsp_command::{
    DspCommand, DspSharedState, spec_execute, spec_from_opcode, spec_latency, spec_operand_count,
    zero_shared,
};
pub use super::dsp_math::DspVariant;
use super::trig::TrigTable;

verus! {

/// Status bit: the DSP accepts a new word.
pub const DSP_STATUS_READY: u8 = 0x80;
/// Status bit: a result word is waiting to be read.
pub const DSP_STATUS_DATA_AVAILABLE: u8 = 0x40;
/// Status bit: a command is collecting operands or running.
pub const DSP_STATUS_COMMAND_WAITING: u8 = 0x20;

/// The DSP revision a header names.
pub open spec fn spec_detect_variant(header: CartridgeHeader) -> DspVariant {
    let t = upper_seq(header.title@);
    if contains_seq(t, "DSP-4"@) {
        DspVariant::Dsp4
    } else if contains_seq(t, "DSP-3"@) {
        DspVariant::Dsp3
    } else if contains_seq(t, "DSP-2"@) {
        DspVariant::Dsp2
    } else if contains_seq(t, "DSP-1B"@) || contains_seq(t, "DSP1B"@) || contains_seq(t, "1B"@) {
        DspVariant::Dsp1B
    } else if header.rom_type >= 0x03 {
        DspVariant::Dsp1
    } else {
        DspVariant::Unknown
    }
}

impl DspVariant {
    /// The revision's display name.
    pub fn name(&self) -> (s: &'static str)
        ensures
            s@ == match self {
                DspVariant::Dsp1 => "DSP-1"@,
                DspVariant::Dsp1B => "DSP-1B"@,
                DspVariant::Dsp2 => "DSP-2"@,
                DspVariant::Dsp3 => "DSP-3"@,
                DspVariant::Dsp4 => "DSP-4"@,
                DspVariant::Unknown => "unknown DSP"@,
            },
    {
        match self {
            DspVariant::Dsp1 => "DSP-1",
            DspVariant::Dsp1B => "DSP-1B",
            DspVariant::Dsp2 => "DSP-2",
            DspVariant::Dsp3 => "DSP-3",
            DspVariant::Dsp4 => "DSP-4",
            DspVariant::Unknown => "unknown DSP",
        }
    }

    /// Detect a likely DSP revision from the cartridge title and chipset byte.
    pub fn detect(header: &CartridgeHeader) -> (v: Self)
        ensures
            v == spec_detect_variant(*header),
    {
        let title = chars_of(header.title.as_str());
        if contains_upper(&title, "DSP-4") {
            return DspVariant::Dsp4;
        }
        if contains_upper(&title, "DSP-3") {
            return DspVariant::Dsp3;
        }
        if contains_upper(&title, "DSP-2") {
            return DspVariant::Dsp2;
        }
        if contains_upper(&title, "DSP-1B") || contains_upper(&title, "DSP1B") || contains_upper(&title, "1B") {
            return DspVariant::Dsp1B;
        }
        if header.rom_type >= 0x03 {
            return DspVariant::Dsp1;
        }
        DspVariant::Unknown
    }
}

/// Where a DSP board decodes its registers.
#[derive(Debug, Clone, Copy, PartialEq, Eq, Structural)]
pub enum DspAddressMap {
    /// LoROM boards up to 1 MiB: banks `$30-$3F`, `$8000-$FFFF`.
    LoRom1MiB,
    /// LoROM boards above 1 MiB or with save RAM: banks `$60-$6F`, `$0000-$7FFF`.
    LoRom2MiB,
    /// HiROM boards: banks `$00-$2F`, `$6000-$7FFF`.
    HiRom,
}

/// A DSP register selected by a CPU address.
#[derive(Debug, Clone, Copy, PartialEq, Eq, Structural)]
pub enum DspRegister {
    /// Low byte of the data word.
    DataLow,
    /// High byte of the data word.
    DataHigh,
    /// Status byte.
    Status,
}

impl DspRegister {
    /// The register's display name.
    pub fn name(&self) -> (s: &'static str)
        ensures
            s@ == match self {
                DspRegister::DataLow => "data-low"@,
                DspRegister::DataHigh => "data-high"@,
                DspRegister::Status => "status"@,
            },
    {
        match self {
            DspRegister::DataLow => "data-low",
            DspRegister::DataHigh => "data-high",
            DspRegister::Status => "status",
        }
    }
}

/// Address map a header selects.
pub open spec fn spec_map_for(header: CartridgeHeader) -> DspAddressMap {
    match header.mapper {
        Mapper::HiRom => DspAddressMap::HiRom,
        Mapper::LoRom => if spec_rom_size_bytes(header) > 1024 * 1024 || spec_ram_size_bytes(header) > 0 {
            DspAddressMap::LoRom2MiB
        } else {
            DspAddressMap::LoRom1MiB
        },
    }
}

/// Data byte register of an offset: even offsets are the low byte.
pub open spec fn spec_byte_register(offset: int) -> DspRegister {
    if offset % 2 == 0 { DspRegister::DataLow } else { DspRegister::DataHigh }
}

/// Register a CPU address selects under an address map.
pub open spec fn spec_decode(map: DspAddressMap, mapper: Mapper, address: u32) -> Option<DspRegister> {
    let bank = (address as int / 0x10000) % 0x80;
    let offset = address as int % 0x10000;
    let effective = if mapper == Mapper::HiRom { DspAddressMap::HiRom } else { map };
    match effective {
        DspAddressMap::LoRom1MiB => if !(0x30 <= bank <= 0x3F) {
            None
        } else if 0x8000 <= offset <= 0xBFFF {
            Some(spec_byte_register(offset))
        } else if offset >= 0xC000 {
            Some(DspRegister::Status)
        } else {
            None
        },
        DspAddressMap::LoRom2MiB => if !(0x60 <= bank <= 0x6F) {
            None
        } else if offset <= 0x3FFF {
            Some(spec_byte_register(offset))
        } else if offset <= 0x7FFF {
            Some(DspRegister::Status)
        } else {
            None
        },
        DspAddressMap::HiRom => if !(bank <= 0x2F) {
            None
        } else if 0x6000 <= offset <= 0x6FFF {
            Some(spec_byte_register(offset))
        } else if 0x7000 <= offset <= 0x7FFF {
            Some(DspRegister::Status)
        } else {
            None
        },
    }
}

impl DspAddressMap {
    fn for_header(header: &CartridgeHeader) -> (m: Self)
        ensures
            m == spec_map_for(*header),
    {
        match header.mapper {
            Mapper::HiRom => DspAddressMap::HiRom,
            Mapper::LoRom => if header.rom_size_bytes() > 1024 * 1024 || header.ram_size_bytes() > 0 {
                DspAddressMap::LoRom2MiB
            } else {
                DspAddressMap::LoRom1MiB
            },
        }
    }

    fn decode(self, mapper: Mapper, address: u32) -> (r: Option<DspRegister>)
        ensures
            r == spec_decode(self, mapper, address),
    {
        let bank = (address / 0x10000) % 0x80;
        let offset = address % 0x10000;
        let effective = if mapper == Mapper::HiRom { DspAddressMap::HiRom } else { self };
        let low_or_high = if offset % 2 == 0 { DspRegister::DataLow } else { DspRegister::DataHigh };
        match effective {
            DspAddressMap::LoRom1MiB => if !(0x30 <= bank && bank <= 0x3F) {
                None
            } else if 0x8000 <= offset && offset <= 0xBFFF {
                Some(low_or_high)
            } else if offset >= 0xC000 {
                Some(DspRegister::Status)
            } else {
                None
            },
            DspAddressMap::LoRom2MiB => if !(0x60 <= bank && bank <= 0x6F) {
                None
            } else if offset <= 0x3FFF {
                Some(low_or_high)
            } else if offset <= 0x7FFF {
                Some(DspRegister::Status)
            } else {
                None
            },
            DspAddressMap::HiRom => if !(bank <= 0x2F) {
                None
            } else if 0x6000 <= offset && offset <= 0x6FFF {
                Some(low_or_high)
            } else if 0x7000 <= offset && offset <= 0x7FFF {
                Some(DspRegister::Status)
            } else {
                None
            },
        }
    }
}

/// Abstract state of a DSP.
pub struct DspView {
    /// Revision.
    pub variant: DspVariant,
    /// Register window.
    pub map: DspAddressMap,
    /// Attitude matrices.
    pub shared: DspSharedState,
    /// Status byte.
    pub status: u8,
    /// Word being written.
    pub write_latch: u16,
    /// Word being read.
    pub read_latch: u16,
    /// A low data byte was written and awaits its high byte.
    pub low_byte_latched: bool,
    /// A low data byte was read, so the next high-byte read consumes the word.
    pub read_high_pending: bool,
    /// Command collecting operands.
    pub active_command: Option<DspCommand>,
    /// The DSP halted.
    pub frozen: bool,
    /// Operands collected so far.
    pub operands: Seq<i16>,
    /// Result words ready to read.
    pub results: Seq<i16>,
    /// Result words released when the busy time elapses.
    pub pending: Seq<i16>,
    /// Master cycles until the running command completes.
    pub busy_cycles: u64,
    /// The running command halts the DSP when it completes.
    pub pending_freeze: bool,
    /// Sine and cosine tables.
    pub trig: TrigTable,
}

/// Status byte a state shows.
pub open spec fn spec_status(v: DspView) -> u8 {
    if v.frozen {
        0
    } else {
        ((if v.busy_cycles > 0 { 0 } else { 0x80int }) + (if v.results.len() > 0 { 0x40int } else { 0 })
            + (if v.active_command is Some || v.busy_cycles > 0 { 0x20int } else { 0 })) as u8
    }
}

/// State with its status byte recomputed.
pub open spec fn refreshed(v: DspView) -> DspView {
    DspView { status: spec_status(v), ..v }
}

/// State after the DSP accepts one data word.
pub open spec fn spec_accept(v: DspView, word: i16) -> DspView {
    match v.active_command {
        Some(command) => {
            let operands = v.operands.push(word);
            if operands.len() >= spec_operand_count(command) {
                let (results, shared) = spec_execute(command, operands, v.variant, v.shared, v.trig);
                let busy = spec_latency(command);
                refreshed(DspView {
                    shared,
                    operands: seq![],
                    pending: if busy == 0 { seq![] } else { results },
                    results: if busy == 0 { results } else { seq![] },
                    busy_cycles: busy,
                    active_command: None,
                    read_high_pending: false,
                    pending_freeze: command is Freeze,
                    ..v
                })
            } else {
                refreshed(DspView { operands, ..v })
            }
        },
        None => {
            let command = spec_from_opcode(word as u16);
            if spec_operand_count(command) == 0 {
                let (results, shared) = spec_execute(command, seq![], v.variant, v.shared, v.trig);
                let busy = spec_latency(command);
                refreshed(DspView {
                    shared,
                    pending: if busy == 0 { seq![] } else { results },
                    results: if busy == 0 { results } else { seq![] },
                    busy_cycles: busy,
                    frozen: if busy == 0 && command is Freeze { true } else { v.frozen },
                    pending_freeze: if busy == 0 { false } else { command is Freeze },
                    read_high_pending: false,
                    ..v
                })
            } else {
                refreshed(DspView {
                    active_command: Some(command),
                    operands: seq![],
                    results: seq![],
                    pending: seq![],
                    read_high_pending: false,
                    ..v
                })
            }
        },
    }
}

/// State and acknowledgement after a CPU write.
pub open spec fn spec_write(v: DspView, mapper: Mapper, address: u32, value: u8) -> (DspView, bool) {
    match spec_decode(v.map, mapper, address) {
        None => (v, false),
        Some(register) => if v.frozen && register != DspRegister::Status {
            (v, true)
        } else {
            match register {
                DspRegister::DataLow => (DspView {
                    write_latch: ((v.write_latch as int / 256) * 256 + value as int) as u16,
                    low_byte_latched: true,
                    ..v
                }, true),
                DspRegister::DataHigh => {
                    let latch = ((v.write_latch as int % 256) + 256 * value as int) as u16;
                    let latched = DspView { write_latch: latch, ..v };
                    let accepted = if v.low_byte_latched { spec_accept(latched, latch as i16) } else { latched };
                    (DspView { low_byte_latched: false, ..accepted }, true)
                },
                DspRegister::Status => (DspView { status: value, ..v }, true),
            }
        },
    }
}

/// The front result word as an unsigned latch value (zero when there is none).
pub open spec fn front_latch(v: DspView) -> u16 {
    if v.results.len() > 0 { v.results[0] as u16 } else { 0 }
}

/// State and value after a CPU read.
pub open spec fn spec_read(v: DspView, mapper: Mapper, address: u32) -> (DspView, Option<u8>) {
    match spec_decode(v.map, mapper, address) {
        None => (v, None),
        Some(register) => if v.frozen && register != DspRegister::Status {
            (v, None)
        } else {
            match register {
                DspRegister::DataLow => {
                    let latch = front_latch(v);
                    (DspView { read_latch: latch, read_high_pending: true, ..v }, Some((latch % 256) as u8))
                },
                DspRegister::DataHigh => {
                    let latch = front_latch(v);
                    let consumed = if v.read_high_pending {
                        DspView {
                            results: if v.results.len() > 0 { v.results.drop_first() } else { v.results },
                            read_high_pending: false,
                            read_latch: latch,
                            ..v
                        }
                    } else {
                        DspView { read_latch: latch, ..v }
                    };
                    (refreshed(consumed), Some((latch / 256) as u8))
                },
                DspRegister::Status => (v, Some(v.status)),
            }
        },
    }
}

/// State after `clocks` master cycles elapse.
pub open spec fn spec_step(v: DspView, clocks: u64) -> DspView {
    if v.busy_cycles == 0 {
        v
    } else if v.busy_cycles > clocks {
        DspView { busy_cycles: (v.busy_cycles - clocks) as u64, ..v }
    } else {
        refreshed(DspView {
            busy_cycles: 0,
            results: v.pending,
            pending: seq![],
            frozen: v.frozen || v.pending_freeze,
            pending_freeze: false,
            ..v
        })
    }
}

/// State of a freshly created or reset DSP.
pub open spec fn initial_dsp(variant: DspVariant, map: DspAddressMap, trig: TrigTable) -> DspView {
    DspView {
        variant,
        map,
        shared: zero_shared(),
        status: DSP_STATUS_READY,
        write_latch: 0,
        read_latch: 0,
        low_byte_latched: false,
        read_high_pending: false,
        active_command: None,
        frozen: false,
        operands: seq![],
        results: seq![],
        pending: seq![],
        busy_cycles: 0,
        pending_freeze: false,
        trig,
    }
}

/// Reading the low and then the high data byte yields the front result word, little-endian,
/// and consumes it.
pub proof fn lemma_word_read_consumes_front(v: DspView, mapper: Mapper, low: u32, high: u32)
    requires
        spec_decode(v.map, mapper, low) == Some(DspRegister::DataLow),
        spec_decode(v.map, mapper, high) == Some(DspRegister::DataHigh),
        !v.frozen,
        v.results.len() > 0,
    ensures
        ({
            let (v1, lo) = spec_read(v, mapper, low);
            let (v2, hi) = spec_read(v1, mapper, high);
            &&& lo is Some && hi is Some
            &&& lo.unwrap() as int + 256 * hi.unwrap() as int == v.results[0] as u16 as int
            &&& v2.results == v.results.drop_first()
        }),
{
}

/// Once the busy time of a running command has elapsed, exactly its pending results become
/// readable, and the status shows the DSP ready, with data available when there are results.
pub proof fn lemma_completion_releases_results(v: DspView, clocks: u64)
    requires
        v.busy_cycles > 0,
        clocks >= v.busy_cycles,
        !v.frozen,
        !v.pending_freeze,
        v.active_command is None,
    ensures
        spec_step(v, clocks).results == v.pending,
        spec_step(v, clocks).busy_cycles == 0,
        spec_step(v, clocks).status == if v.pending.len() > 0 { 0xC0u8 } else { 0x80u8 },
{
}

/// While a command's busy time has not elapsed, its results stay hidden and the status shows a
/// command in progress without the ready bit.
pub proof fn lemma_busy_hides_results(v: DspView, clocks: u64)
    requires
        v.busy_cycles > clocks,
        !v.frozen,
        v.results.len() == 0,
    ensures
        spec_step(v, clocks).results.len() == 0,
        spec_status(spec_step(v, clocks)) == 0x20,
{
}

/// DSP-family runtime model.
#[derive(Debug, Clone)]
pub struct DspCoprocessor {
    variant: DspVariant,
    map: DspAddressMap,
    shared: DspSharedState,
    status_register: u8,
    write_latch: u16,
    read_latch: u16,
    low_byte_latched: bool,
    read_high_pending: bool,
    active_command: Option<DspCommand>,
    frozen: bool,
    operand_words: Vec<i16>,
    result_words: VecDeque<i16>,
    pending_result_words: VecDeque<i16>,
    busy_cycles: u64,
    pending_freeze: bool,
    trig: TrigTable,
}

impl View for DspCoprocessor {
    type V = DspView;

    closed spec fn view(&self) -> DspView {
        DspView {
            variant: self.variant,
            map: self.map,
            shared: self.shared,
            status: self.status_register,
            write_latch: self.write_latch,
            read_latch: self.read_latch,
            low_byte_latched: self.low_byte_latched,
            read_high_pending: self.read_high_pending,
            active_command: self.active_command,
            frozen: self.frozen,
            operands: self.operand_words@,
            results: self.result_words@,
            pending: self.pending_result_words@,
            busy_cycles: self.busy_cycles,
            pending_freeze: self.pending_freeze,
            trig: self.trig,
        }
    }
}

fn deque_from(words: Vec<i16>) -> (d: VecDeque<i16>)
    ensures
        d@ == words@,
{
    let mut d: VecDeque<i16> = VecDeque::new();
    let mut i: usize = 0;
    while i < words.len()
        invariant
            i <= words@.len(),
            d@ == words@.subrange(0, i as int),
        decreases words@.len() - i,
    {
        d.push_back(words[i]);
        i = i + 1;
    }
    assert(words@.subrange(0, words@.len() as int) =~= words@);
    d
}

impl DspCoprocessor {
    /// Build the DSP for a cartridge header, with trigonometric tables for its geometry
    /// commands.
    pub fn new(header: &CartridgeHeader, trig: TrigTable) -> (d: Self)
        ensures
            d@ == initial_dsp(spec_detect_variant(*header), spec_map_for(*header), trig),
    {
        let variant = DspVariant::detect(header);
        let map = DspAddressMap::for_header(header);
        let d = DspCoprocessor {
            variant,
            map,
            shared: DspSharedState::default(),
            status_register: DSP_STATUS_READY,
            write_latch: 0,
            read_latch: 0,
            low_byte_latched: false,
            read_high_pending: false,
            active_command: None,
            frozen: false,
            operand_words: Vec::new(),
            result_words: VecDeque::new(),
            pending_result_words: VecDeque::new(),
            busy_cycles: 0,
            pending_freeze: false,
            trig,
        };
        assert(d@.operands =~= seq![]);
        assert(d@.results =~= seq![]);
        assert(d@.pending =~= seq![]);
        d
    }

    /// The detected revision.
    pub fn variant(&self) -> (v: DspVariant)
        ensures
            v == self@.variant,
    {
        self.variant
    }

    /// Number of result words ready to read.
    pub fn result_count(&self) -> (n: usize)
        ensures
            n == self@.results.len(),
    {
        self.result_words.len()
    }

    /// The front result word, if any.
    pub fn front_result(&self) -> (w: Option<i16>)
        ensures
            w == if self@.results.len() > 0 { Some(self@.results[0]) } else { None::<i16> },
    {
        if self.result_words.len() > 0 {
            Some(self.result_words[0])
        } else {
            None
        }
    }

    /// Return to the power-on state, keeping revision, window and tables.
    pub fn reset(&mut self)
        ensures
            final(self)@ == initial_dsp(old(self)@.variant, old(self)@.map, old(self)@.trig),
    {
        self.status_register = DSP_STATUS_READY;
        self.shared = DspSharedState::default();
        self.write_latch = 0;
        self.read_latch = 0;
        self.low_byte_latched = false;
        self.read_high_pending = false;
        self.active_command = None;
        self.frozen = false;
        self.operand_words.clear();
        self.result_words.clear();
        self.pending_result_words.clear();
        self.busy_cycles = 0;
        self.pending_freeze = false;
        assert(self@.operands =~= seq![]);
        assert(self@.results =~= seq![]);
        assert(self@.pending =~= seq![]);
    }

    fn refresh_status(&mut self)
        ensures
            final(self)@ == refreshed(old(self)@),
    {
        if self.frozen {
            self.status_register = 0;
            return;
        }
        let mut status: u8 = if self.busy_cycles > 0 { 0 } else { DSP_STATUS_READY };
        if self.result_words.len() > 0 {
            status = status + DSP_STATUS_DATA_AVAILABLE;
        }
        if self.active_command.is_some() || self.busy_cycles > 0 {
            status = status + DSP_STATUS_COMMAND_WAITING;
        }
        self.status_register = status;
    }

    fn refresh_read_latch(&mut self)
        ensures
            final(self)@ == (DspView { read_latch: front_latch(old(self)@), ..old(self)@ }),
    {
        self.read_latch = if self.result_words.len() > 0 { self.result_words[0] as u16 } else { 0 };
    }

    fn finish_command(&mut self, results: Vec<i16>, busy: u64)
        ensures
            final(self)@ == (DspView {
                pending: if busy == 0 { seq![] } else { results@ },
                results: if busy == 0 { results@ } else { seq![] },
                busy_cycles: busy,
                ..old(self)@
            }),
    {
        let deque = deque_from(results);
        self.busy_cycles = busy;
        if busy == 0 {
            self.result_words = deque;
            self.pending_result_words = VecDeque::new();
        } else {
            self.pending_result_words = deque;
            self.result_words.clear();
        }
        assert(self@.results =~= (if busy == 0 { results@ } else { seq![] }));
        assert(self@.pending =~= (if busy == 0 { seq![] } else { results@ }));
    }

    fn accept_word(&mut self, word: i16)
        ensures
            final(self)@ == spec_accept(old(self)@, word),
    {
        match self.active_command {
            Some(command) => {
                self.operand_words.push(word);
                if self.operand_words.len() >= command.operand_count() {
                    let mut operands = Vec::new();
                    std::mem::swap(&mut operands, &mut self.operand_words);
                    let results = command.execute(operands.as_slice(), self.variant, &mut self.shared, &self.trig);
                    let busy = command.latency_cycles(self.variant);
                    self.finish_command(results, busy);
                    self.active_command = None;
                    self.read_high_pending = false;
                    self.pending_freeze = command.is_freeze();
                    assert(self@.operands =~= seq![]);
                }
                self.refresh_status();
            },
            None => {
                let command = DspCommand::from_opcode(word as u16);
                if command.operand_count() == 0 {
                    let empty: Vec<i16> = Vec::new();
                    let results = command.execute(empty.as_slice(), self.variant, &mut self.shared, &self.trig);
                    assert(empty@ =~= seq![]);
                    let busy = command.latency_cycles(self.variant);
                    self.finish_command(results, busy);
                    self.pending_freeze = command.is_freeze();
                    if busy == 0 && self.pending_freeze {
                        self.frozen = true;
                        self.pending_freeze = false;
                    }
                    if busy == 0 {
                        self.pending_freeze = false;
                    }
                } else {
                    self.active_command = Some(command);
                    self.operand_words.clear();
                    self.result_words.clear();
                    self.pending_result_words.clear();
                    assert(self@.operands =~= seq![]);
                    assert(self@.results =~= seq![]);
                    assert(self@.pending =~= seq![]);
                }
                self.read_high_pending = false;
                self.refresh_status();
            },
        }
    }

    /// Service a CPU read of the DSP window; `None` when the address is not a DSP register
    /// or the DSP is halted and the register is not the status byte.
    pub fn read(&mut self, mapper: Mapper, address: u32) -> (r: Option<u8>)
        ensures
            (final(self)@, r) == spec_read(old(self)@, mapper, address),
    {
        let register = match self.map.decode(mapper, address) {
            Some(register) => register,
            None => {
                return None;
            },
        };
        if self.frozen && register != DspRegister::Status {
            return None;
        }
        match register {
            DspRegister::DataLow => {
                self.refresh_read_latch();
                self.read_high_pending = true;
                Some((self.read_latch % 256) as u8)
            },
            DspRegister::DataHigh => {
                self.refresh_read_latch();
                let value = (self.read_latch / 256) as u8;
                if self.read_high_pending {
                    let _ = self.result_words.pop_front();
                    self.read_high_pending = false;
                }
                self.refresh_status();
                Some(value)
            },
            DspRegister::Status => Some(self.status_register),
        }
    }

    /// Service a CPU write to the DSP window; `false` when the address is not a DSP register.
    pub fn write(&mut self, mapper: Mapper, address: u32, value: u8) -> (handled: bool)
        ensures
            (final(self)@, handled) == spec_write(old(self)@, mapper, address, value),
    {
        let register = match self.map.decode(mapper, address) {
            Some(register) => register,
            None => {
                return false;
            },
        };
        if self.frozen && register != DspRegister::Status {
            return true;
        }
        match register {
            DspRegister::DataLow => {
                self.write_latch = (self.write_latch / 256) * 256 + value as u16;
                self.low_byte_latched = true;
            },
            DspRegister::DataHigh => {
                self.write_latch = self.write_latch % 256 + 256 * (value as u16);
                if self.low_byte_latched {
                    self.accept_word(self.write_latch as i16);
                }
                self.low_byte_latched = false;
            },
            DspRegister::Status => {
                self.status_register = value;
            },
        }
        true
    }

    /// Let `clocks` master cycles elapse: a running command completes once its busy time is
    /// spent, releasing its results.
    pub fn step_master_cycles(&mut self, clocks: u64)
        ensures
            final(self)@ == spec_step(old(self)@, clocks),
    {
        if self.busy_cycles == 0 {
            return;
        }
        self.busy_cycles = self.busy_cycles.saturating_sub(clocks);
        if self.busy_cycles == 0 {
            let mut pending = VecDeque::new();
            std::mem::swap(&mut pending, &mut self.pending_result_words);
            self.result_words = pending;
            if self.pending_freeze {
                self.frozen = true;
                self.pending_freeze = false;
            }
            assert(self@.pending =~= seq![]);
            self.refresh_status();
        }
    }
}

} // verus!
