//! Cartridge loading and mapper metadata.
pub mod header;

use vstd::prelude::*;

use crate::coprocessor::{CoprocessorKind, spec_detect};
use crate::error::{Error, Result};
pub use self::header::{CartridgeHeader, Region};
use self::header::{header_from_slot, slot_parses, slot_title, mapper_matches, spec_score};

verus! {

/// Length of the copier header some ROM dumps carry.
pub const SMC_HEADER_LEN: usize = 512;

/// Supported SNES mapper families.
#[derive(Debug, Clone, Copy, PartialEq, Eq, Structural)]
pub enum Mapper {
    /// LoROM / SlowROM style mapping.
    LoRom,
    /// HiROM style mapping.
    HiRom,
}

/// Offset of a mapper's header slot inside the ROM image.
pub open spec fn spec_header_base(mapper: Mapper) -> int {
    match mapper {
        Mapper::LoRom => 0x7FC0,
        Mapper::HiRom => 0xFFC0,
    }
}

impl Mapper {
    fn header_base(self) -> (base: usize)
        ensures
            base as int == spec_header_base(self),
    {
        match self {
            Mapper::LoRom => 0x7FC0,
            Mapper::HiRom => 0xFFC0,
        }
    }
}

/// In-memory cartridge representation.
#[derive(Debug)]
pub struct Cartridge {
    rom: Vec<u8>,
    source: Option<String>,
    header: CartridgeHeader,
    mapper: Mapper,
}

/// The ROM image left after removing a copier header: images whose size is 512 bytes past a
/// multiple of 1 KiB lose their first 512 bytes.
pub open spec fn stripped_rom(bytes: Seq<u8>) -> Seq<u8> {
    if bytes.len() % 1024 == 512 { bytes.subrange(512, bytes.len() as int) } else { bytes }
}

/// The 0x40-byte header slot of `mapper` in `rom`, when the image is large enough.
pub open spec fn slot_of(rom: Seq<u8>, mapper: Mapper) -> Seq<u8> {
    rom.subrange(spec_header_base(mapper), spec_header_base(mapper) + 0x40)
}

/// Whether `mapper`'s header slot exists and parses.
pub open spec fn slot_ok(rom: Seq<u8>, mapper: Mapper) -> bool {
    rom.len() >= spec_header_base(mapper) + 0x40 && slot_parses(slot_of(rom, mapper))
}

/// Score of the header held in a slot.
pub open spec fn slot_score(slot: Seq<u8>, mapper: Mapper) -> int {
    let complement = (slot[0x1C] as u16) | ((slot[0x1D] as u16) << 8u16);
    let checksum = (slot[0x1E] as u16) | ((slot[0x1F] as u16) << 8u16);
    (if checksum ^ complement == 0xFFFF { 8u32 } else { 0u32 })
        + (if mapper_matches(mapper, slot[0x15]) { 4u32 } else { 0u32 })
        + (if (vstd::utf8::encode_utf8(slot_title(slot)).len() as usize) >= 4 { 2u32 } else { 0u32 })
}

/// The mapper chosen for a ROM image: the HiROM slot wins only when it parses and either the
/// LoROM slot does not or the HiROM header scores strictly higher.
pub open spec fn chosen_mapper(rom: Seq<u8>) -> Mapper {
    if slot_ok(rom, Mapper::HiRom) && (!slot_ok(rom, Mapper::LoRom)
        || slot_score(slot_of(rom, Mapper::HiRom), Mapper::HiRom)
            > slot_score(slot_of(rom, Mapper::LoRom), Mapper::LoRom)) {
        Mapper::HiRom
    } else {
        Mapper::LoRom
    }
}

/// Whether a ROM image has a detectable header.
pub open spec fn has_header(rom: Seq<u8>) -> bool {
    slot_ok(rom, Mapper::LoRom) || slot_ok(rom, Mapper::HiRom)
}

/// Whether raw image bytes load as a cartridge.
pub open spec fn loads(bytes: Seq<u8>) -> bool {
    bytes.len() >= 0x8000 && has_header(stripped_rom(bytes))
}

/// ROM index of a LoROM CPU address, if the address maps to ROM.
pub open spec fn spec_map_lorom(address: u32) -> Option<int> {
    let bank = (address >> 16u32) & 0xFF;
    let offset = address & 0xFFFF;
    let bank_index = (bank & 0x7F) as int;
    if (bank <= 0x3F || (0x80 <= bank && bank <= 0xBF)) && offset >= 0x8000 {
        Some(bank_index * 0x8000 + (offset - 0x8000))
    } else if (0x40 <= bank && bank <= 0x7D) || 0xC0 <= bank {
        Some(bank_index * 0x8000 + (offset & 0x7FFF) as int)
    } else {
        None
    }
}

/// ROM index of a HiROM CPU address, if the address maps to ROM.
pub open spec fn spec_map_hirom(address: u32) -> Option<int> {
    let bank = (address >> 16u32) & 0xFF;
    let offset = address & 0xFFFF;
    let bank_index = (bank & 0x3F) as int;
    if (bank <= 0x3F || (0x80 <= bank && bank <= 0xBF)) && offset >= 0x8000 {
        Some(bank_index * 0x10000 + offset as int)
    } else if (0x40 <= bank && bank <= 0x7D) || 0xC0 <= bank {
        Some(bank_index * 0x10000 + offset as int)
    } else {
        None
    }
}

/// ROM index of a CPU address for a mapper.
pub open spec fn spec_map_rom(mapper: Mapper, address: u32) -> Option<int> {
    match mapper {
        Mapper::LoRom => spec_map_lorom(address),
        Mapper::HiRom => spec_map_hirom(address),
    }
}

/// In HiROM, every address of banks `$C0-$FF` reads the ROM byte at
/// `((bank - 0xC0) * 0x10000 + offset)` modulo the image size, the full 64 KiB of each bank,
/// and so reads what the same offset of the matching bank among `$40-$7D` reads.
pub proof fn lemma_hirom_high_banks(c: Cartridge, bank: u8, offset: u16)
    requires
        c.mapper_view() == Mapper::HiRom,
        c.rom_view().len() > 0,
        0xC0 <= bank,
    ensures
        c.spec_read_byte(((bank as u32) << 16u32) | (offset as u32))
            == Some(c.rom_view()[((bank as int - 0xC0) * 0x10000 + offset as int) % (c.rom_view().len() as int)]),
        bank <= 0xFD ==> c.spec_read_byte(((bank as u32) << 16u32) | (offset as u32))
            == c.spec_read_byte((((bank - 0x80) as u32) << 16u32) | (offset as u32)),
{
    let address = ((bank as u32) << 16u32) | (offset as u32);
    let b = bank as u32;
    let o = offset as u32;
    assert((address >> 16u32) & 0xFF == b && address & 0xFFFF == o) by (bit_vector)
        requires
            address == (b << 16u32) | o,
            b < 256,
            o < 65536,
    ;
    assert(b & 0x3F == b - 0xC0) by (bit_vector)
        requires
            0xC0 <= b < 256,
    ;
    if bank <= 0xFD {
        let low = (bank - 0x80) as u32;
        let address2 = (low << 16u32) | o;
        assert((address2 >> 16u32) & 0xFF == low && address2 & 0xFFFF == o) by (bit_vector)
            requires
                address2 == (low << 16u32) | o,
                low < 256,
                o < 65536,
        ;
        assert(low & 0x3F == b - 0xC0) by (bit_vector)
            requires
                low == b - 0x80,
                0xC0 <= b <= 0xFD,
        ;
    }
}

impl Clone for Cartridge {
    fn clone(&self) -> (c: Self)
        ensures
            c.rom_view() == self.rom_view(),
            c.header_view() == self.header_view(),
            c.mapper_view() == self.mapper_view(),
            c.source_view() == self.source_view(),
    {
        proof { use_type_invariant(self); }
        let rom = self.rom.clone();
        assert(rom@ =~= self.rom@);
        let source = match &self.source {
            Some(p) => Some(p.clone()),
            None => None,
        };
        Cartridge { rom, source, header: self.header.clone(), mapper: self.mapper }
    }
}

impl Cartridge {
    /// The well-formedness of a loaded cartridge: its image holds at least the LoROM header slot.
    #[verifier::type_invariant]
    closed spec fn inv(self) -> bool {
        self.rom@.len() >= 0x8000
    }

    /// ROM bytes excluding any copier header.
    pub closed spec fn rom_view(&self) -> Seq<u8> {
        self.rom@
    }

    /// The parsed header.
    pub closed spec fn header_view(&self) -> CartridgeHeader {
        self.header
    }

    /// The detected mapper.
    pub closed spec fn mapper_view(&self) -> Mapper {
        self.mapper
    }

    /// The recorded load path.
    pub closed spec fn source_view(&self) -> Option<String> {
        self.source
    }

    /// Byte observed at a CPU address, if the address maps to ROM.
    pub open spec fn spec_read_byte(&self, address: u32) -> Option<u8> {
        match spec_map_rom(self.mapper_view(), address) {
            Some(index) => if self.rom_view().len() > 0 {
                Some(self.rom_view()[index % (self.rom_view().len() as int)])
            } else {
                None
            },
            None => None,
        }
    }

    /// Load a cartridge from owned bytes.
    pub fn from_bytes(bytes: Vec<u8>, source: Option<String>) -> (r: Result<Self>)
        ensures
            r is Ok <==> loads(bytes@),
            r matches Ok(c) ==> {
                &&& c.rom_view() == stripped_rom(bytes@)
                &&& c.mapper_view() == chosen_mapper(stripped_rom(bytes@))
                &&& header_from_slot(slot_of(c.rom_view(), c.mapper_view()), c.mapper_view(), c.header_view())
                &&& c.source_view() == source
            },
            r matches Err(e) ==> e is InvalidRom,
    {
        let (rom, had_smc_header) = strip_smc_header(bytes)?;
        let (mapper, header) = detect_header(&rom)?;
        let _ = had_smc_header;
        Ok(Cartridge { rom, source, header, mapper })
    }

    /// ROM bytes excluding any copier header.
    pub fn rom(&self) -> (r: &[u8])
        ensures
            r@ == self.rom_view(),
    {
        self.rom.as_slice()
    }

    /// Parsed cartridge header.
    pub fn header(&self) -> (h: &CartridgeHeader)
        ensures
            *h == self.header_view(),
    {
        &self.header
    }

    /// Detected mapper family.
    pub fn mapper(&self) -> (m: Mapper)
        ensures
            m == self.mapper_view(),
    {
        self.mapper
    }

    /// Path the ROM was loaded from, if known.
    pub fn source(&self) -> (s: Option<&String>)
        ensures
            s == match self.source_view() { Some(p) => Some(&p), None => None::<&String> },
    {
        self.source.as_ref()
    }

    /// Detected coprocessor family from the cartridge chipset byte, if any.
    pub fn coprocessor_kind(&self) -> (k: Option<CoprocessorKind>)
        ensures
            k == spec_detect(self.header_view()),
    {
        CoprocessorKind::detect(&self.header)
    }

    /// Read one ROM byte through the detected CPU address mapping.
    pub fn read_byte(&self, address: u32) -> (r: Option<u8>)
        ensures
            r == self.spec_read_byte(address),
            self.rom_view().len() >= 0x8000,
    {
        proof { use_type_invariant(self); }
        let index = match self.mapper {
            Mapper::LoRom => map_lorom(address),
            Mapper::HiRom => map_hirom(address),
        };
        match index {
            Some(i) => Some(self.rom[i % self.rom.len()]),
            None => None,
        }
    }

    /// Read the reset vector from the cartridge image if the mapping exposes it.
    pub fn reset_vector(&self) -> (r: Option<u16>)
        ensures
            r == match (self.spec_read_byte(0x00FFFC), self.spec_read_byte(0x00FFFD)) {
                (Some(lo), Some(hi)) => Some((lo as u16) | ((hi as u16) << 8u16)),
                _ => None::<u16>,
            },
    {
        let lo = match self.read_byte(0x00FFFC) {
            Some(v) => v,
            None => {
                return None;
            },
        };
        let hi = match self.read_byte(0x00FFFD) {
            Some(v) => v,
            None => {
                return None;
            },
        };
        Some((lo as u16) | ((hi as u16) << 8u16))
    }
}

fn strip_smc_header(bytes: Vec<u8>) -> (r: Result<(Vec<u8>, bool)>)
    ensures
        r is Ok <==> bytes@.len() >= 0x8000,
        r matches Ok((rom, had)) ==> rom@ == stripped_rom(bytes@) && had == (bytes@.len() % 1024 == 512),
        r matches Err(e) ==> e is InvalidRom,
{
    if bytes.len() < 0x8000 {
        return Err(Error::InvalidRom("ROM is smaller than 32 KiB".to_owned()));
    }
    if bytes.len() % 1024 == SMC_HEADER_LEN {
        let rest = &bytes[SMC_HEADER_LEN..bytes.len()];
        return Ok((vstd::slice::slice_to_vec(rest), true));
    }
    Ok((bytes, false))
}

proof fn lemma_score_of_slot(slot: Seq<u8>, mapper: Mapper, h: CartridgeHeader)
    requires
        header_from_slot(slot, mapper, h),
    ensures
        spec_score(h) == slot_score(slot, mapper),
{
}

fn detect_header(rom: &Vec<u8>) -> (r: Result<(Mapper, CartridgeHeader)>)
    ensures
        r is Ok <==> has_header(rom@),
        r matches Ok((m, h)) ==> m == chosen_mapper(rom@) && header_from_slot(slot_of(rom@, m), m, h),
        r matches Err(e) ==> e is InvalidRom,
{
    let mut low: Option<CartridgeHeader> = None;
    if rom.len() >= 0x7FC0 + 0x40 {
        let base = Mapper::LoRom.header_base();
        low = CartridgeHeader::parse(&rom.as_slice()[base..base + 0x40], Mapper::LoRom);
    }
    let mut high: Option<CartridgeHeader> = None;
    if rom.len() >= 0xFFC0 + 0x40 {
        let base = Mapper::HiRom.header_base();
        high = CartridgeHeader::parse(&rom.as_slice()[base..base + 0x40], Mapper::HiRom);
    }
    match (low, high) {
        (Some(lo), Some(hi)) => {
            proof {
                lemma_score_of_slot(slot_of(rom@, Mapper::LoRom), Mapper::LoRom, lo);
                lemma_score_of_slot(slot_of(rom@, Mapper::HiRom), Mapper::HiRom, hi);
            }
            if lo.score() >= hi.score() {
                Ok((Mapper::LoRom, lo))
            } else {
                Ok((Mapper::HiRom, hi))
            }
        },
        (Some(lo), None) => Ok((Mapper::LoRom, lo)),
        (None, Some(hi)) => Ok((Mapper::HiRom, hi)),
        (None, None) => Err(Error::InvalidRom("unable to detect a valid SNES header".to_owned())),
    }
}

fn map_lorom(address: u32) -> (r: Option<usize>)
    ensures
        match (r, spec_map_lorom(address)) {
            (Some(i), Some(j)) => i as int == j,
            (None, None) => true,
            _ => false,
        },
{
    let bank = (address >> 16u32) & 0xFF;
    let offset = address & 0xFFFF;
    let bank_index = (bank & 0x7F) as usize;
    assert(bank & 0x7F <= 0x7F) by (bit_vector);
    assert(offset <= 0xFFFF) by (bit_vector) requires offset == address & 0xFFFF;
    if (bank <= 0x3F || (0x80 <= bank && bank <= 0xBF)) && offset >= 0x8000 {
        Some(bank_index * 0x8000 + (offset - 0x8000) as usize)
    } else if (0x40 <= bank && bank <= 0x7D) || 0xC0 <= bank {
        assert(offset & 0x7FFF <= 0x7FFF) by (bit_vector);
        Some(bank_index * 0x8000 + (offset & 0x7FFF) as usize)
    } else {
        None
    }
}

fn map_hirom(address: u32) -> (r: Option<usize>)
    ensures
        match (r, spec_map_hirom(address)) {
            (Some(i), Some(j)) => i as int == j,
            (None, None) => true,
            _ => false,
        },
{
    let bank = (address >> 16u32) & 0xFF;
    let offset = address & 0xFFFF;
    let bank_index = (bank & 0x3F) as usize;
    assert(bank & 0x3F <= 0x3F) by (bit_vector);
    assert(offset <= 0xFFFF) by (bit_vector) requires offset == address & 0xFFFF;
    if (bank <= 0x3F || (0x80 <= bank && bank <= 0xBF)) && offset >= 0x8000 {
        Some(bank_index * 0x10000 + offset as usize)
    } else if (0x40 <= bank && bank <= 0x7D) || 0xC0 <= bank {
        Some(bank_index * 0x10000 + offset as usize)
    } else {
        None
    }
}

} // verus!
