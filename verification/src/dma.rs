//! DMA/HDMA controller model: the CPU-visible register image of the eight channels.
use vstd::prelude::*;

verus! {

/// Number of CPU-visible DMA/HDMA channels.
pub const DMA_CHANNEL_COUNT: usize = 8;

/// Snapshot of one DMA channel's configured transfer.
#[derive(Debug, Clone, Copy, PartialEq, Eq, Structural)]
pub struct DmaChannel {
    /// DMAPx control byte.
    pub control: u8,
    /// BBADx destination register offset.
    pub b_bus_address: u8,
    /// A1Tx current transfer address.
    pub a_bus_address: u16,
    /// A1Bx source bank.
    pub a_bus_bank: u8,
    /// DASx byte count or indirect HDMA pointer.
    pub byte_count: u16,
    /// Resolved indirect HDMA data address.
    pub indirect_address: u16,
    /// A2Ax HDMA table address.
    pub hdma_table_address: u16,
    /// Current HDMA data pointer for direct-mode bytes.
    pub hdma_data_address: u16,
    /// NTRLx HDMA line counter / repeat flags.
    pub hdma_line_counter: u8,
    /// Whether this HDMA channel still has work to do this frame.
    pub hdma_active: bool,
    /// Whether the current HDMA block repeats without consuming new data.
    pub hdma_repeat: bool,
}

/// The channel with every register cleared.
pub open spec fn zero_channel() -> DmaChannel {
    DmaChannel {
        control: 0,
        b_bus_address: 0,
        a_bus_address: 0,
        a_bus_bank: 0,
        byte_count: 0,
        indirect_address: 0,
        hdma_table_address: 0,
        hdma_data_address: 0,
        hdma_line_counter: 0,
        hdma_active: false,
        hdma_repeat: false,
    }
}

impl Default for DmaChannel {
    fn default() -> (c: Self)
        ensures
            c == zero_channel(),
    {
        DmaChannel {
            control: 0,
            b_bus_address: 0,
            a_bus_address: 0,
            a_bus_bank: 0,
            byte_count: 0,
            indirect_address: 0,
            hdma_table_address: 0,
            hdma_data_address: 0,
            hdma_line_counter: 0,
            hdma_active: false,
            hdma_repeat: false,
        }
    }
}

/// Replace the low byte of a word.
pub open spec fn with_low(word: u16, value: u8) -> u16 {
    (word & 0xFF00) | (value as u16)
}

/// Replace the high byte of a word.
pub open spec fn with_high(word: u16, value: u8) -> u16 {
    (word & 0x00FF) | ((value as u16) << 8u16)
}

/// Value a CPU read of channel register `register` (0..=15) observes.
pub open spec fn register_value(c: DmaChannel, register: int) -> u8 {
    if register == 0x0 {
        c.control
    } else if register == 0x1 {
        c.b_bus_address
    } else if register == 0x2 {
        c.a_bus_address as u8
    } else if register == 0x3 {
        (c.a_bus_address >> 8u16) as u8
    } else if register == 0x4 {
        c.a_bus_bank
    } else if register == 0x5 {
        c.byte_count as u8
    } else if register == 0x6 {
        (c.byte_count >> 8u16) as u8
    } else if register == 0x7 {
        c.indirect_address as u8
    } else if register == 0x8 {
        c.hdma_table_address as u8
    } else if register == 0x9 {
        (c.hdma_table_address >> 8u16) as u8
    } else if register == 0xA {
        c.hdma_line_counter
    } else {
        0
    }
}

/// Channel after a CPU write of `value` to channel register `register` (0..=15).
pub open spec fn register_written(c: DmaChannel, register: int, value: u8) -> DmaChannel {
    if register == 0x0 {
        DmaChannel { control: value, ..c }
    } else if register == 0x1 {
        DmaChannel { b_bus_address: value, ..c }
    } else if register == 0x2 {
        DmaChannel { a_bus_address: with_low(c.a_bus_address, value), ..c }
    } else if register == 0x3 {
        DmaChannel { a_bus_address: with_high(c.a_bus_address, value), ..c }
    } else if register == 0x4 {
        DmaChannel { a_bus_bank: value, ..c }
    } else if register == 0x5 {
        DmaChannel { byte_count: with_low(c.byte_count, value), ..c }
    } else if register == 0x6 {
        DmaChannel { byte_count: with_high(c.byte_count, value), ..c }
    } else if register == 0x7 {
        DmaChannel { indirect_address: with_low(c.indirect_address, value), ..c }
    } else if register == 0x8 {
        DmaChannel { hdma_table_address: with_low(c.hdma_table_address, value), ..c }
    } else if register == 0x9 {
        DmaChannel { hdma_table_address: with_high(c.hdma_table_address, value), ..c }
    } else if register == 0xA {
        DmaChannel { hdma_line_counter: value, ..c }
    } else {
        c
    }
}

impl DmaChannel {
    /// 24-bit A-bus source address.
    pub open spec fn spec_a_bus_full_address(self) -> u32 {
        ((self.a_bus_bank as u32) << 16u32) | (self.a_bus_address as u32)
    }

    /// Build a 24-bit A-bus source address.
    pub fn a_bus_full_address(self) -> (r: u32)
        ensures
            r == self.spec_a_bus_full_address(),
            r == self.a_bus_bank as u32 * 0x10000 + self.a_bus_address as u32,
    {
        let bank = self.a_bus_bank as u32;
        let addr = self.a_bus_address as u32;
        assert((bank << 16u32) | addr == bank * 0x10000 + addr) by (bit_vector)
            requires
                bank < 0x100,
                addr < 0x10000,
        ;
        (bank << 16u32) | addr
    }

    /// Number of bytes implied by the current DMA byte count register (a zero count means
    /// 64 KiB).
    pub fn dma_length(self) -> (n: usize)
        ensures
            n == if self.byte_count == 0 { 0x1_0000 } else { self.byte_count as int },
    {
        if self.byte_count == 0 {
            0x1_0000
        } else {
            self.byte_count as usize
        }
    }

    /// Whether the transfer direction is B-bus to A-bus.
    pub fn reverse_transfer(self) -> (r: bool)
        ensures
            r == (self.control & 0x80 != 0),
    {
        self.control & 0x80 != 0
    }

    /// Whether the A-bus address remains fixed across the transfer.
    pub fn fixed_transfer(self) -> (r: bool)
        ensures
            r == (self.control & 0x08 != 0),
    {
        self.control & 0x08 != 0
    }

    /// Whether the A-bus address decrements instead of incrementing.
    pub fn decrement_transfer(self) -> (r: bool)
        ensures
            r == (self.control & 0x10 != 0),
    {
        self.control & 0x10 != 0
    }

    /// Whether HDMA uses indirect addressing for data bytes.
    pub fn hdma_indirect(self) -> (r: bool)
        ensures
            r == (self.control & 0x40 != 0),
    {
        self.control & 0x40 != 0
    }

    /// DMA/HDMA transfer mode number.
    pub fn transfer_mode(self) -> (r: u8)
        ensures
            r == self.control & 0x07,
            r < 8,
    {
        let c = self.control;
        assert(c & 0x07 < 8) by (bit_vector);
        c & 0x07
    }
}

/// DMA controller register image and execution bookkeeping.
#[derive(Debug, Clone, PartialEq, Eq)]
pub struct DmaController {
    channels: [DmaChannel; DMA_CHANNEL_COUNT],
    dma_enable_mask: u8,
    hdma_enable_mask: u8,
    /// Number of bytes transferred by DMA or HDMA.
    pub transfer_count: u64,
}

impl Default for DmaController {
    fn default() -> (d: Self)
        ensures
            d.channels_view() == Seq::new(8, |i: int| zero_channel()),
            d.dma_mask() == 0,
            d.hdma_mask() == 0,
            d.transfers() == 0,
    {
        let c = DmaChannel::default();
        let d = DmaController {
            channels: [c, c, c, c, c, c, c, c],
            dma_enable_mask: 0,
            hdma_enable_mask: 0,
            transfer_count: 0,
        };
        assert(d.channels@ =~= Seq::new(8, |i: int| zero_channel()));
        d
    }
}

/// B-bus register offsets a transfer mode touches, in transfer order.
pub open spec fn mode_offsets(mode: u8) -> Seq<u8> {
    let m = mode & 0x07;
    if m == 0 {
        seq![0u8]
    } else if m == 1 {
        seq![0u8, 1]
    } else if m == 2 || m == 6 {
        seq![0u8, 0]
    } else if m == 3 || m == 7 {
        seq![0u8, 0, 1, 1]
    } else if m == 4 {
        seq![0u8, 1, 2, 3]
    } else {
        seq![0u8, 1, 0, 1]
    }
}

/// The transfer modes as register patterns: a unit is one, two or four bytes, and byte `i` of it
/// goes to B-bus register offset 0 in modes 0, 2 and 6; `i % 2` (alternating between two
/// registers) in modes 1 and 5; `i / 2` (each of two registers twice, in turn) in modes 3
/// and 7; and `i` (four registers in turn) in mode 4. Only the low three bits select the mode.
pub proof fn lemma_transfer_patterns(mode: u8, i: int)
    ensures
        mode_offsets(mode).len() == if mode & 7 == 0 {
            1int
        } else if mode & 7 == 1 || mode & 7 == 2 || mode & 7 == 6 {
            2
        } else {
            4
        },
        0 <= i < mode_offsets(mode).len() ==> mode_offsets(mode)[i] as int == if mode & 7 == 4 {
            i
        } else if mode & 7 == 1 || mode & 7 == 5 {
            i % 2
        } else if mode & 7 == 3 || mode & 7 == 7 {
            i / 2
        } else {
            0
        },
{
    assert(mode & 7 < 8) by (bit_vector);
    assert(mode & 0x07 == mode & 7);
    if 0 <= i < mode_offsets(mode).len() {
        assert(0 <= i < 4);
        if i == 0 {} else if i == 1 {} else if i == 2 {} else {}
    }
}

impl DmaController {
    /// The eight channels.
    pub closed spec fn channels_view(&self) -> Seq<DmaChannel> {
        self.channels@
    }

    /// The transferred-byte counter.
    pub closed spec fn transfers(&self) -> u64 {
        self.transfer_count
    }

    /// The DMA enable mask.
    pub closed spec fn dma_mask(&self) -> u8 {
        self.dma_enable_mask
    }

    /// The HDMA enable mask.
    pub closed spec fn hdma_mask(&self) -> u8 {
        self.hdma_enable_mask
    }

    /// Value a CPU read at `offset` from `$4300` observes.
    pub open spec fn spec_read_register(&self, offset: u16) -> u8 {
        if offset / 16 < 8 {
            register_value(self.channels_view()[(offset / 16) as int], (offset % 16) as int)
        } else {
            0
        }
    }

    /// Channels after a CPU write of `value` at `offset` from `$4300`.
    pub open spec fn channels_after_write(&self, offset: u16, value: u8) -> Seq<DmaChannel> {
        if offset / 16 < 8 {
            self.channels_view().update(
                (offset / 16) as int,
                register_written(self.channels_view()[(offset / 16) as int], (offset % 16) as int, value),
            )
        } else {
            self.channels_view()
        }
    }

    /// Read a CPU-visible DMA/HDMA register by offset from `$4300`.
    pub fn read_register(&self, offset: u16) -> (r: u8)
        ensures
            r == self.spec_read_register(offset),
    {
        let index = (offset / 0x10) as usize;
        let register = offset % 0x10;
        if index >= DMA_CHANNEL_COUNT {
            return 0;
        }
        let channel = self.channels[index];
        match register {
            0x0 => channel.control,
            0x1 => channel.b_bus_address,
            0x2 => channel.a_bus_address as u8,
            0x3 => (channel.a_bus_address >> 8u16) as u8,
            0x4 => channel.a_bus_bank,
            0x5 => channel.byte_count as u8,
            0x6 => (channel.byte_count >> 8u16) as u8,
            0x7 => channel.indirect_address as u8,
            0x8 => channel.hdma_table_address as u8,
            0x9 => (channel.hdma_table_address >> 8u16) as u8,
            0xA => channel.hdma_line_counter,
            _ => 0,
        }
    }

    /// Write a CPU-visible DMA/HDMA register by offset from `$4300`.
    pub fn write_register(&mut self, offset: u16, value: u8)
        ensures
            final(self).channels_view() == old(self).channels_after_write(offset, value),
            final(self).dma_mask() == old(self).dma_mask(),
            final(self).hdma_mask() == old(self).hdma_mask(),
            final(self).transfers() == old(self).transfers(),
        no_unwind
    {
        let index = (offset / 0x10) as usize;
        let register = offset % 0x10;
        if index >= DMA_CHANNEL_COUNT {
            return;
        }
        let mut c = self.channels[index];
        let v = value as u16;
        match register {
            0x0 => c.control = value,
            0x1 => c.b_bus_address = value,
            0x2 => c.a_bus_address = (c.a_bus_address & 0xFF00) | v,
            0x3 => c.a_bus_address = (c.a_bus_address & 0x00FF) | (v << 8u16),
            0x4 => c.a_bus_bank = value,
            0x5 => c.byte_count = (c.byte_count & 0xFF00) | v,
            0x6 => c.byte_count = (c.byte_count & 0x00FF) | (v << 8u16),
            0x7 => c.indirect_address = (c.indirect_address & 0xFF00) | v,
            0x8 => c.hdma_table_address = (c.hdma_table_address & 0xFF00) | v,
            0x9 => c.hdma_table_address = (c.hdma_table_address & 0x00FF) | (v << 8u16),
            0xA => c.hdma_line_counter = value,
            _ => {},
        }
        self.channels[index] = c;
        assert(self.channels@ =~= old(self).channels_after_write(offset, value));
    }

    /// Current DMA enable mask written through `$420B`.
    pub fn dma_enable_mask(&self) -> (m: u8)
        ensures
            m == self.dma_mask(),
    {
        self.dma_enable_mask
    }

    /// Current HDMA enable mask written through `$420C`.
    pub fn hdma_enable_mask(&self) -> (m: u8)
        ensures
            m == self.hdma_mask(),
    {
        self.hdma_enable_mask
    }

    /// Set the currently requested DMA mask.
    pub fn set_dma_enable_mask(&mut self, mask: u8)
        ensures
            final(self).dma_mask() == mask,
            final(self).hdma_mask() == old(self).hdma_mask(),
            final(self).channels_view() == old(self).channels_view(),
            final(self).transfers() == old(self).transfers(),
        no_unwind
    {
        self.dma_enable_mask = mask;
    }

    /// Set the currently requested HDMA mask.
    pub fn set_hdma_enable_mask(&mut self, mask: u8)
        ensures
            final(self).hdma_mask() == mask,
            final(self).dma_mask() == old(self).dma_mask(),
            final(self).channels_view() == old(self).channels_view(),
            final(self).transfers() == old(self).transfers(),
        no_unwind
    {
        self.hdma_enable_mask = mask;
    }

    /// Count `n` more transferred bytes (saturating).
    pub fn add_transfers(&mut self, n: u64)
        ensures
            final(self).transfers() == if old(self).transfers() as int + n as int > u64::MAX {
                u64::MAX
            } else {
                (old(self).transfers() + n) as u64
            },
            final(self).channels_view() == old(self).channels_view(),
            final(self).dma_mask() == old(self).dma_mask(),
            final(self).hdma_mask() == old(self).hdma_mask(),
        no_unwind
    {
        self.transfer_count = if self.transfer_count > u64::MAX - n { u64::MAX } else { self.transfer_count + n };
    }

    /// Borrow one configured DMA channel.
    pub fn channel(&self, index: usize) -> (r: Option<&DmaChannel>)
        ensures
            index < 8 ==> r == Some(&self.channels_view()[index as int]),
            index >= 8 ==> r is None,
    {
        if index < DMA_CHANNEL_COUNT {
            Some(&self.channels[index])
        } else {
            None
        }
    }

    /// Borrow one configured DMA channel for in-place changes.
    pub fn channel_mut(&mut self, index: usize) -> (r: Option<&mut DmaChannel>)
        ensures
            index < 8 ==> r is Some && *r.unwrap() == old(self).channels_view()[index as int]
                && final(self).channels_view() == old(self).channels_view().update(index as int, *final(r.unwrap())),
            index >= 8 ==> r is None && final(self).channels_view() == old(self).channels_view(),
            final(self).dma_mask() == old(self).dma_mask(),
            final(self).hdma_mask() == old(self).hdma_mask(),
            final(self).transfers() == old(self).transfers(),
    {
        if index < DMA_CHANNEL_COUNT {
            Some(&mut self.channels[index])
        } else {
            None
        }
    }

    /// Replace one configured DMA channel.
    pub fn set_channel(&mut self, index: usize, channel: DmaChannel)
        ensures
            final(self).channels_view() == if index < 8 {
                old(self).channels_view().update(index as int, channel)
            } else {
                old(self).channels_view()
            },
            final(self).dma_mask() == old(self).dma_mask(),
            final(self).hdma_mask() == old(self).hdma_mask(),
            final(self).transfers() == old(self).transfers(),
        no_unwind
    {
        if index < DMA_CHANNEL_COUNT {
            self.channels[index] = channel;
            assert(self.channels@ =~= old(self).channels@.update(index as int, channel));
        }
    }

    /// Decode which B-bus register offsets a transfer mode touches.
    pub fn b_bus_offsets_for_mode(mode: u8) -> (offsets: Vec<u8>)
        ensures
            offsets@ == mode_offsets(mode),
    {
        let m = mode & 0x07;
        let v: Vec<u8> = if m == 0 {
            vec![0]
        } else if m == 1 {
            vec![0, 1]
        } else if m == 2 || m == 6 {
            vec![0, 0]
        } else if m == 3 || m == 7 {
            vec![0, 0, 1, 1]
        } else if m == 4 {
            vec![0, 1, 2, 3]
        } else {
            vec![0, 1, 0, 1]
        };
        assert(v@ =~= mode_offsets(mode));
        v
    }
}

/// Reading a channel register (`$43x0`-`$43xA`) gives back the byte last written to it.
pub proof fn lemma_register_write_then_read(d: DmaController, offset: u16, value: u8)
    requires
        offset / 16 < 8,
        offset % 16 <= 0xA,
    ensures
        register_value(d.channels_after_write(offset, value)[(offset / 16) as int], (offset % 16) as int) == value,
{
    let c = d.channels_view()[(offset / 16) as int];
    lemma_byte_lanes(c.a_bus_address, value);
    lemma_byte_lanes(c.byte_count, value);
    lemma_byte_lanes(c.indirect_address, value);
    lemma_byte_lanes(c.hdma_table_address, value);
}

/// Writing one channel register leaves what every other register reads unchanged.
pub proof fn lemma_register_write_isolated(d: DmaController, offset: u16, other: u16, value: u8)
    requires
        offset != other,
    ensures
        (if other / 16 < 8 {
            register_value(d.channels_after_write(offset, value)[(other / 16) as int], (other % 16) as int)
        } else {
            0
        }) == d.spec_read_register(other),
{
    if other / 16 < 8 && offset / 16 == other / 16 {
        let c = d.channels_view()[(offset / 16) as int];
        lemma_byte_lanes(c.a_bus_address, value);
        lemma_byte_lanes(c.byte_count, value);
        lemma_byte_lanes(c.indirect_address, value);
        lemma_byte_lanes(c.hdma_table_address, value);
    }
}

proof fn lemma_byte_lanes(word: u16, value: u8)
    ensures
        with_low(word, value) as u8 == value,
        (with_low(word, value) >> 8u16) as u8 == (word >> 8u16) as u8,
        (with_high(word, value) >> 8u16) as u8 == value,
        with_high(word, value) as u8 == word as u8,
{
    assert(((word & 0xFF00) | (value as u16)) as u8 == value) by (bit_vector);
    assert(((((word & 0xFF00) | (value as u16)) >> 8u16) as u8) == ((word >> 8u16) as u8)) by (bit_vector);
    assert(((((word & 0x00FF) | ((value as u16) << 8u16)) >> 8u16) as u8) == value) by (bit_vector);
    assert((((word & 0x00FF) | ((value as u16) << 8u16)) as u8) == (word as u8)) by (bit_vector);
}

} // verus!
