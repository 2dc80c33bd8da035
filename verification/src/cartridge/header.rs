//! Cartridge header parsing helpers.
use vstd::prelude::*;
use vstd::utf8::{decode_utf8, valid_utf8, encode_utf8};

use crate::text::{is_unicode_whitespace, is_whitespace_char, utf8_decode};
use super::Mapper;

verus! {

/// SNES territory identifier normalized to a coarse region.
#[derive(Debug, Clone, Copy, PartialEq, Eq, Structural)]
pub enum Region {
    /// NTSC-like region.
    Ntsc,
    /// PAL-like region.
    Pal,
    /// Region is unknown or vendor-specific.
    Unknown,
}

/// Parsed SNES cartridge header.
#[derive(Debug, PartialEq, Eq)]
pub struct CartridgeHeader {
    /// Human-readable title.
    pub title: String,
    /// Mapper detected from the candidate slot.
    pub mapper: Mapper,
    /// Raw mapping mode byte.
    pub map_mode: u8,
    /// ROM type byte.
    pub rom_type: u8,
    /// Encoded ROM size exponent.
    pub rom_size_code: u8,
    /// Encoded RAM size exponent.
    pub ram_size_code: u8,
    /// Destination/region byte.
    pub destination_code: u8,
    /// Derived coarse region.
    pub region: Region,
    /// Header checksum complement.
    pub complement: u16,
    /// Header checksum.
    pub checksum: u16,
}

/// Region implied by a destination code.
pub open spec fn spec_region_from_code(code: u8) -> Region {
    if code == 0x00 || code == 0x01 || code == 0x0D {
        Region::Ntsc
    } else if (0x02 <= code && code <= 0x0C) || code == 0x11 {
        Region::Pal
    } else {
        Region::Unknown
    }
}

/// `s` without its trailing NUL characters.
pub open spec fn trim_nul_end(s: Seq<char>) -> Seq<char>
    decreases s.len(),
{
    if s.len() > 0 && s.last() == '\0' { trim_nul_end(s.drop_last()) } else { s }
}

/// `s` without its trailing whitespace.
pub open spec fn trim_whitespace_end(s: Seq<char>) -> Seq<char>
    decreases s.len(),
{
    if s.len() > 0 && is_unicode_whitespace(s.last()) { trim_whitespace_end(s.drop_last()) } else { s }
}

/// The title characters stored in a header slot: the 21 title bytes decoded as UTF-8, with
/// trailing NULs and then trailing whitespace removed.
pub open spec fn slot_title(bytes: Seq<u8>) -> Seq<char> {
    trim_whitespace_end(trim_nul_end(decode_utf8(bytes.subrange(0, 21))))
}

/// A title is acceptable when it is non-empty and consists of spaces and printable ASCII.
pub open spec fn title_acceptable(t: Seq<char>) -> bool {
    &&& t.len() > 0
    &&& forall|i: int| 0 <= i < t.len() ==> t[i] == ' ' || ('!' <= #[trigger] t[i] && t[i] <= '~')
}

/// Whether a header slot parses.
pub open spec fn slot_parses(bytes: Seq<u8>) -> bool {
    &&& bytes.len() >= 0x20
    &&& valid_utf8(bytes.subrange(0, 21))
    &&& title_acceptable(slot_title(bytes))
}

/// `h` is the header read from the slot `bytes` for `mapper`.
pub open spec fn header_from_slot(bytes: Seq<u8>, mapper: Mapper, h: CartridgeHeader) -> bool {
    &&& h.title@ == slot_title(bytes)
    &&& h.mapper == mapper
    &&& h.map_mode == bytes[0x15]
    &&& h.rom_type == bytes[0x16]
    &&& h.rom_size_code == bytes[0x17]
    &&& h.ram_size_code == bytes[0x18]
    &&& h.destination_code == bytes[0x19]
    &&& h.region == spec_region_from_code(bytes[0x19])
    &&& h.complement == (bytes[0x1C] as u16) | ((bytes[0x1D] as u16) << 8u16)
    &&& h.checksum == (bytes[0x1E] as u16) | ((bytes[0x1F] as u16) << 8u16)
}

/// Mapper score of a header: checksum pair (8), mapping byte agreeing with the mapper (4),
/// and a title of at least four bytes (2).
pub open spec fn spec_score(h: CartridgeHeader) -> int {
    (if h.checksum ^ h.complement == 0xFFFF { 8u32 } else { 0u32 })
        + (if mapper_matches(h.mapper, h.map_mode) { 4u32 } else { 0u32 })
        + (if (encode_utf8(h.title@).len() as usize) >= 4 { 2u32 } else { 0u32 })
}

/// Whether the mapping-mode byte agrees with the mapper.
pub open spec fn mapper_matches(mapper: Mapper, map_mode: u8) -> bool {
    match mapper {
        Mapper::LoRom => 0x20 <= map_mode && map_mode <= 0x3F,
        Mapper::HiRom => 0x21 <= map_mode && map_mode <= 0x3F,
    }
}

/// ROM or RAM size in bytes for a size code: 1 KiB shifted left by the code (capped at 31).
pub open spec fn size_from_code(code: u8) -> int {
    0x400 * (vstd::arithmetic::power2::pow2(if code < 0x1F { code as nat } else { 0x1F }) as int)
}

/// ROM size in bytes a header announces (wrapping in a narrow machine word).
pub open spec fn spec_rom_size_bytes(h: CartridgeHeader) -> int {
    size_from_code(h.rom_size_code) % (usize::MAX as int + 1)
}

/// Save-RAM size in bytes a header announces: zero for a zero code.
pub open spec fn spec_ram_size_bytes(h: CartridgeHeader) -> int {
    if h.ram_size_code == 0 { 0 } else { size_from_code(h.ram_size_code) % (usize::MAX as int + 1) }
}

fn region_from_code(code: u8) -> (r: Region)
    ensures
        r == spec_region_from_code(code),
{
    if code == 0x00 || code == 0x01 || code == 0x0D {
        Region::Ntsc
    } else if (0x02 <= code && code <= 0x0C) || code == 0x11 {
        Region::Pal
    } else {
        Region::Unknown
    }
}

/// Number of leading characters of `s` left after trimming trailing NULs and then trailing
/// whitespace.
fn trimmed_title_len(s: &str) -> (end: usize)
    ensures
        end <= s@.len(),
        s@.subrange(0, end as int) == trim_whitespace_end(trim_nul_end(s@)),
{
    let n = s.unicode_len();
    let mut end: usize = n;
    assert(s@.subrange(0, n as int) =~= s@);
    while end > 0 && s.get_char(end - 1) == '\0'
        invariant
            n == s@.len(),
            end <= n,
            trim_nul_end(s@) == trim_nul_end(s@.subrange(0, end as int)),
        decreases end,
    {
        assert(s@.subrange(0, end as int).drop_last() =~= s@.subrange(0, end - 1));
        end = end - 1;
    }
    assert(trim_nul_end(s@.subrange(0, end as int)) == s@.subrange(0, end as int));
    let ghost nul_trimmed = s@.subrange(0, end as int);
    while end > 0 && is_whitespace_char(s.get_char(end - 1))
        invariant
            n == s@.len(),
            end <= nul_trimmed.len(),
            nul_trimmed == trim_nul_end(s@),
            nul_trimmed.len() <= n,
            forall|i: int| 0 <= i < nul_trimmed.len() ==> nul_trimmed[i] == s@[i],
            trim_whitespace_end(nul_trimmed) == trim_whitespace_end(s@.subrange(0, end as int)),
        decreases end,
    {
        assert(s@.subrange(0, end as int).drop_last() =~= s@.subrange(0, end - 1));
        end = end - 1;
    }
    end
}

impl Clone for CartridgeHeader {
    fn clone(&self) -> (c: Self)
        ensures
            c == *self,
    {
        CartridgeHeader {
            title: self.title.clone(),
            mapper: self.mapper,
            map_mode: self.map_mode,
            rom_type: self.rom_type,
            rom_size_code: self.rom_size_code,
            ram_size_code: self.ram_size_code,
            destination_code: self.destination_code,
            region: self.region,
            complement: self.complement,
            checksum: self.checksum,
        }
    }
}

impl CartridgeHeader {
    /// Parse a header from a 0x40-byte candidate slot.
    pub fn parse(bytes: &[u8], mapper: Mapper) -> (r: Option<Self>)
        ensures
            r is Some <==> slot_parses(bytes@),
            r matches Some(h) ==> header_from_slot(bytes@, mapper, h),
    {
        if bytes.len() < 0x20 {
            return None;
        }
        let raw = &bytes[0..21];
        let decoded = match utf8_decode(raw) {
            Some(s) => s,
            None => {
                return None;
            },
        };
        let end = trimmed_title_len(decoded);
        assert(decoded@.subrange(0, end as int) == slot_title(bytes@));
        if end == 0 {
            return None;
        }
        let mut i: usize = 0;
        while i < end
            invariant
                end <= decoded@.len(),
                i <= end,
                decoded@.subrange(0, end as int) == slot_title(bytes@),
                forall|j: int| 0 <= j < i ==> decoded@[j] == ' ' || ('!' <= #[trigger] decoded@[j] && decoded@[j] <= '~'),
            decreases end - i,
        {
            let c = decoded.get_char(i);
            if !(c == ' ' || ('!' <= c && c <= '~')) {
                assert(!title_acceptable(slot_title(bytes@))) by {
                    assert(decoded@.subrange(0, end as int)[i as int] == decoded@[i as int]);
                    assert(slot_title(bytes@)[i as int] == c);
                }
                return None;
            }
            i = i + 1;
        }
        let title = decoded.substring_char(0, end).to_owned();
        let complement = (bytes[0x1C] as u16) | ((bytes[0x1D] as u16) << 8u16);
        let checksum = (bytes[0x1E] as u16) | ((bytes[0x1F] as u16) << 8u16);
        Some(CartridgeHeader {
            title,
            mapper,
            map_mode: bytes[0x15],
            rom_type: bytes[0x16],
            rom_size_code: bytes[0x17],
            ram_size_code: bytes[0x18],
            destination_code: bytes[0x19],
            region: region_from_code(bytes[0x19]),
            complement,
            checksum,
        })
    }

    /// Score the candidate header for mapper selection.
    pub fn score(&self) -> (score: u32)
        ensures
            score == spec_score(*self),
    {
        let mut score: u32 = 0;
        if self.checksum ^ self.complement == 0xFFFF {
            score = score + 8;
        }
        let mapper_match = match self.mapper {
            Mapper::LoRom => 0x20 <= self.map_mode && self.map_mode <= 0x3F,
            Mapper::HiRom => 0x21 <= self.map_mode && self.map_mode <= 0x3F,
        };
        if mapper_match {
            score = score + 4;
        }
        if self.title.as_str().len() >= 4 {
            score = score + 2;
        }
        score
    }

    /// Approximate ROM size in bytes from the size code.
    pub fn rom_size_bytes(&self) -> (size: usize)
        ensures
            size as int == spec_rom_size_bytes(*self),
    {
        shifted_kib(self.rom_size_code)
    }

    /// Approximate save RAM size in bytes from the size code (zero when the code is zero).
    pub fn ram_size_bytes(&self) -> (size: usize)
        ensures
            size as int == spec_ram_size_bytes(*self),
    {
        if self.ram_size_code == 0 {
            0
        } else {
            shifted_kib(self.ram_size_code)
        }
    }
}

/// 1 KiB shifted left by `code` (capped at 31) in the machine word, so that bits shifted past
/// the top of a narrow `usize` are lost as with `<<`.
fn shifted_kib(code: u8) -> (size: usize)
    ensures
        size as int == size_from_code(code) % (usize::MAX as int + 1),
{
    let shift: u64 = if code < 0x1F { code as u64 } else { 0x1F };
    proof {
        vstd::arithmetic::power2::lemma2_to64();
        vstd::arithmetic::power2::lemma_pow2_adds(10, shift as nat);
        vstd::arithmetic::power2::lemma_pow2_strictly_increases(shift as nat + 10, 64);
        vstd::bits::lemma_u64_shl_is_mul(0x400, shift);
    }
    let wide: u64 = 0x400u64 << shift;
    assert(wide as int == size_from_code(code));
    assert(wide < 0x400_0000_0000u64) by {
        vstd::arithmetic::power2::lemma_pow2_strictly_increases(shift as nat + 10, 42);
        vstd::arithmetic::power2::lemma_pow2_adds(10, shift as nat);
    }
    if wide <= usize::MAX as u64 {
        wide as usize
    } else {
        (wide % 0x1_0000_0000u64) as usize
    }
}

} // verus!
