//! PPU register model and software frame generation.
use vstd::prelude::*;

use crate::dma::{with_high, with_low};

verus! {

/// Native SNES framebuffer width.
pub const SCREEN_WIDTH: usize = 256;
/// Native SNES framebuffer height.
pub const SCREEN_HEIGHT: usize = 224;

const PPU_REGISTER_COUNT: usize = 0x40;
const CGRAM_BYTES: usize = 512;
const VRAM_BYTES: usize = 0x10000;
const FRAME_BYTES: usize = 229376;

/// Software framebuffer in RGBA8 format.
#[derive(Debug, PartialEq, Eq)]
pub struct FrameBuffer {
    pixels: Vec<u8>,
}

impl FrameBuffer {
    /// A frame holds exactly 256 x 224 RGBA pixels.
    pub open spec fn wf(&self) -> bool {
        self.pixels_view().len() == 229376
    }

    /// The RGBA bytes, row by row.
    pub closed spec fn pixels_view(&self) -> Seq<u8> {
        self.pixels@
    }

    /// Width in pixels.
    pub fn width(&self) -> (w: usize)
        ensures
            w == 256,
    {
        SCREEN_WIDTH
    }

    /// Height in pixels.
    pub fn height(&self) -> (h: usize)
        ensures
            h == 224,
    {
        SCREEN_HEIGHT
    }

    /// Backing RGBA pixels.
    pub fn pixels(&self) -> (p: &[u8])
        ensures
            p@ == self.pixels_view(),
    {
        self.pixels.as_slice()
    }

    /// Mutably borrow the RGBA bytes.
    pub fn pixels_mut(&mut self) -> (p: &mut [u8])
        ensures
            p@ == old(self).pixels_view(),
            final(self).pixels_view() == final(p)@,
    {
        self.pixels.as_mut_slice()
    }

    /// Overwrite the RGBA bytes of pixel `index` (row-major).
    pub fn set_pixel(&mut self, index: usize, rgba: [u8; 4])
        requires
            old(self).wf(),
            index < 256 * 224,
        ensures
            final(self).wf(),
            final(self).pixels_view() == old(self).pixels_view()
                .update(4 * index as int, rgba@[0])
                .update(4 * index + 1, rgba@[1])
                .update(4 * index + 2, rgba@[2])
                .update(4 * index + 3, rgba@[3]),
    {
        self.pixels.set(4 * index, rgba[0]);
        self.pixels.set(4 * index + 1, rgba[1]);
        self.pixels.set(4 * index + 2, rgba[2]);
        self.pixels.set(4 * index + 3, rgba[3]);
    }
}

/// The header of a binary PPM image of a frame, the text `P6`, the width and height, and the
/// largest sample value 255, each followed by a line break: "P6\n256 224\n255\n".
pub open spec fn ppm_header() -> Seq<u8> {
    seq![0x50u8, 0x36, 0x0A, 0x32, 0x35, 0x36, 0x20, 0x32, 0x32, 0x34, 0x0A, 0x32, 0x35, 0x35, 0x0A]
}

/// The red, green and blue bytes of each whole RGBA pixel, in order.
pub open spec fn rgb_bytes(rgba: Seq<u8>) -> Seq<u8> {
    Seq::new((3 * (rgba.len() / 4)) as nat, |k: int| rgba[(k / 3) * 4 + k % 3])
}

proof fn lemma_rgb_index(i: int, j: int)
    requires
        0 <= i,
        0 <= j < 3,
    ensures
        (3 * i + j) / 3 == i,
        (3 * i + j) % 3 == j,
        ((3 * i + j) / 3) * 4 + (3 * i + j) % 3 == 4 * i + j,
{
    assert((3 * i + j) / 3 == i && (3 * i + j) % 3 == j) by (nonlinear_arith)
        requires 0 <= i, 0 <= j < 3;
}

impl FrameBuffer {
    /// The frame as a binary PPM image: the header, then the red, green and blue bytes of
    /// every pixel.
    pub fn ppm_image(&self) -> (bytes: Vec<u8>)
        ensures
            bytes@ == ppm_header() + rgb_bytes(self.pixels_view()),
    {
        let mut out: Vec<u8> = vec![0x50u8, 0x36, 0x0A, 0x32, 0x35, 0x36, 0x20, 0x32, 0x32, 0x34, 0x0A, 0x32, 0x35, 0x35, 0x0A];
        assert(out@ =~= ppm_header());
        let ghost px = self.pixels@;
        let len = self.pixels.len();
        let n = len / 4;
        let mut i: usize = 0;
        while i < n
            invariant
                px == self.pixels@,
                len == px.len(),
                n == px.len() / 4,
                i <= n,
                out@.len() == 15 + 3 * i,
                out@.subrange(0, 15) == ppm_header(),
                forall|k: int| 0 <= k < 3 * i ==> #[trigger] out@[15 + k] == px[(k / 3) * 4 + k % 3],
            decreases n - i,
        {
            assert(4 * i + 3 < px.len()) by (nonlinear_arith)
                requires i < n, n == px.len() / 4;
            out.push(self.pixels[4 * i]);
            out.push(self.pixels[4 * i + 1]);
            out.push(self.pixels[4 * i + 2]);
            proof {
                assert forall|k: int| 0 <= k < 3 * (i + 1) implies #[trigger] out@[15 + k] == px[(k / 3) * 4 + k % 3] by {
                    if k >= 3 * i {
                        lemma_rgb_index(i as int, k - 3 * i);
                    }
                }
                assert(out@.subrange(0, 15) =~= ppm_header());
            }
            i = i + 1;
        }
        assert(out@ =~= ppm_header() + rgb_bytes(px)) by {
            assert forall|k: int| 15 <= k < out@.len() implies out@[k] == (ppm_header() + rgb_bytes(px))[k] by {
                assert(out@[15 + (k - 15)] == px[((k - 15) / 3) * 4 + (k - 15) % 3]);
            }
            assert forall|k: int| 0 <= k < 15 implies out@[k] == (ppm_header() + rgb_bytes(px))[k] by {
                assert(out@.subrange(0, 15)[k] == out@[k]);
            }
        }
        out
    }
}

impl Default for FrameBuffer {
    fn default() -> (f: Self)
        ensures
            f.pixels_view() == Seq::new(229376, |i: int| 0u8),
            f.wf(),
    {
        let pixels = vec![0u8; FRAME_BYTES];
        assert(pixels@ =~= Seq::new(229376, |i: int| 0u8));
        FrameBuffer { pixels }
    }
}

impl Clone for FrameBuffer {
    fn clone(&self) -> (f: Self)
        ensures
            f.pixels_view() == self.pixels_view(),
    {
        let pixels = self.pixels.clone();
        assert(pixels@ =~= self.pixels@);
        FrameBuffer { pixels }
    }
}

/// Abstract state of the PPU.
pub struct PpuView {
    /// The 64 register bytes at `$2100-$213F`, as last written.
    pub registers: Seq<u8>,
    /// Palette memory.
    pub cgram: Seq<u8>,
    /// Video memory.
    pub vram: Seq<u8>,
    /// CGRAM byte address.
    pub cgram_address: u16,
    /// VRAM word address.
    pub vram_address: u16,
    /// VRAM word increment applied after high-byte writes.
    pub vram_increment: u16,
    /// BG1 horizontal scroll.
    pub bg1_scroll_x: u16,
    /// BG1 vertical scroll.
    pub bg1_scroll_y: u16,
    /// Pending low byte of the BG1 horizontal scroll.
    pub bg1_hofs_latch: Option<u8>,
    /// Pending low byte of the BG1 vertical scroll.
    pub bg1_vofs_latch: Option<u8>,
}

/// Byte index of a VRAM word address (low or high byte).
pub open spec fn vram_index(address: u16, high_byte: bool) -> int {
    (address as int * 2 + if high_byte { 1int } else { 0 }) % 0x10000
}

/// Word increment selected by a `$2115` value.
pub open spec fn increment_for(value: u8) -> u16 {
    if value & 0x03 == 0 {
        1
    } else if value & 0x03 == 1 {
        32
    } else {
        128
    }
}

impl PpuView {
    /// Value a CPU read of `register` observes.
    pub open spec fn read(self, register: u16) -> u8 {
        if register == 0x2139 {
            self.vram[vram_index(self.vram_address, false)]
        } else if register == 0x213A {
            self.vram[vram_index(self.vram_address, true)]
        } else if register == 0x213B {
            self.cgram[self.cgram_address as int % 512]
        } else if 0x2100 <= register <= 0x213F {
            self.registers[register - 0x2100]
        } else {
            0
        }
    }

    /// State after a CPU write of `value` to `register`.
    pub open spec fn write(self, register: u16, value: u8) -> PpuView {
        if !(0x2100 <= register <= 0x213F) {
            self
        } else {
            let s = PpuView { registers: self.registers.update(register - 0x2100, value), ..self };
            if register == 0x210D {
                match s.bg1_hofs_latch {
                    Some(low) => PpuView {
                        bg1_scroll_x: with_high(low as u16, value),
                        bg1_hofs_latch: None,
                        ..s
                    },
                    None => PpuView { bg1_hofs_latch: Some(value), ..s },
                }
            } else if register == 0x210E {
                match s.bg1_vofs_latch {
                    Some(low) => PpuView {
                        bg1_scroll_y: with_high(low as u16, value),
                        bg1_vofs_latch: None,
                        ..s
                    },
                    None => PpuView { bg1_vofs_latch: Some(value), ..s },
                }
            } else if register == 0x2115 {
                PpuView { vram_increment: increment_for(value), ..s }
            } else if register == 0x2116 {
                PpuView { vram_address: with_low(s.vram_address, value), ..s }
            } else if register == 0x2117 {
                PpuView { vram_address: with_high(s.vram_address, value), ..s }
            } else if register == 0x2118 {
                PpuView { vram: s.vram.update(vram_index(s.vram_address, false), value), ..s }
            } else if register == 0x2119 {
                PpuView {
                    vram: s.vram.update(vram_index(s.vram_address, true), value),
                    vram_address: ((s.vram_address + s.vram_increment) % 0x10000) as u16,
                    ..s
                }
            } else if register == 0x2121 {
                PpuView { cgram_address: (value * 2) as u16, ..s }
            } else if register == 0x2122 {
                PpuView {
                    cgram: s.cgram.update(s.cgram_address as int % 512, value),
                    cgram_address: ((s.cgram_address + 1) % 512) as u16,
                    ..s
                }
            } else {
                s
            }
        }
    }
}

/// RGBA bytes of a BGR555 color.
pub open spec fn spec_rgba(color: u16) -> Seq<u8> {
    seq![
        ((color / 1024) % 32 * 8) as u8,
        ((color / 32) % 32 * 8) as u8,
        (color % 32 * 8) as u8,
        0xFFu8,
    ]
}

/// Bit `bit` (0 = least significant) of a byte.
pub open spec fn plane_bit(b: u8, bit: int) -> int {
    ((b >> (bit as u8)) & 1u8) as int
}

/// 4bpp color index of pixel (`x`, `y`) of a tile whose data starts at byte `tile_base`: bit
/// `7 - x` of the four bit-plane bytes of row `y`.
pub open spec fn spec_tile_pixel(vram: Seq<u8>, tile_base: int, x: int, y: int) -> int {
    let bit = 7 - x;
    plane_bit(vram[(tile_base + y * 2) % 0x10000], bit)
        + 2 * plane_bit(vram[(tile_base + y * 2 + 1) % 0x10000], bit)
        + 4 * plane_bit(vram[(tile_base + 16 + y * 2) % 0x10000], bit)
        + 8 * plane_bit(vram[(tile_base + 16 + y * 2 + 1) % 0x10000], bit)
}

impl PpuView {
    /// BGR555 backdrop color (CGRAM entry 0).
    pub open spec fn backdrop(self) -> u16 {
        (self.cgram[0] as int + 256 * self.cgram[1] as int) as u16
    }

    /// BG1 tilemap base byte address selected by `$2107`.
    pub open spec fn tilemap_base(self) -> int {
        (self.registers[0x07] as int / 4) * 1024
    }

    /// BG1 tile data base byte address selected by `$210B`.
    pub open spec fn tiledata_base(self) -> int {
        (self.registers[0x0B] as int % 16) * 4096
    }

    /// RGBA bytes BG1 shows at screen pixel (`x`, `y`).
    pub open spec fn bg1_pixel(self, x: int, y: int) -> Seq<u8> {
        let world_x = (x + self.bg1_scroll_x) % 256;
        let world_y = (y + self.bg1_scroll_y) % 256;
        let tile_index = (world_y / 8) * 32 + world_x / 8;
        let entry_index = (self.tilemap_base() + tile_index * 2) % 0x10000;
        let entry = self.vram[entry_index] as int + 256 * self.vram[(entry_index + 1) % 0x10000] as int;
        let tile_number = entry % 1024;
        let palette = (entry / 1024) % 8;
        let hflip = (entry / 0x4000) % 2 == 1;
        let vflip = entry / 0x8000 == 1;
        let fine_x = if hflip { 7 - world_x % 8 } else { world_x % 8 };
        let fine_y = if vflip { 7 - world_y % 8 } else { world_y % 8 };
        let tile_base = (self.tiledata_base() + tile_number * 32) % 0x10000;
        let color_index = spec_tile_pixel(self.vram, tile_base, fine_x, fine_y);
        if color_index == 0 {
            spec_rgba(self.backdrop())
        } else {
            let cgram_index = (palette * 16 + color_index) * 2;
            spec_rgba(
                (self.cgram[cgram_index % 512] as int + 256 * self.cgram[(cgram_index + 1) % 512] as int) as u16,
            )
        }
    }

    /// RGBA bytes of screen pixel (`x`, `y`) in the rendered frame.
    pub open spec fn frame_pixel(self, x: int, y: int) -> Seq<u8> {
        if self.registers[0x00] >= 0x80 {
            seq![0u8, 0, 0, 0xFF]
        } else if self.registers[0x2C] % 2 == 0 || self.registers[0x05] % 8 > 1 {
            spec_rgba(self.backdrop())
        } else {
            self.bg1_pixel(x, y)
        }
    }

    /// The whole rendered frame, row by row.
    pub open spec fn frame(self) -> Seq<u8> {
        Seq::new(229376, |i: int| self.frame_pixel((i / 4) % 256, (i / 4) / 256)[i % 4])
    }
}

/// Byte index of the high byte of the BG1 tilemap entry that covers screen pixel (`x`, `y`).
pub open spec fn bg1_entry_high(v: PpuView, x: int, y: int) -> int {
    let world_x = (x + v.bg1_scroll_x) % 256;
    let world_y = (y + v.bg1_scroll_y) % 256;
    (v.tilemap_base() + ((world_y / 8) * 32 + world_x / 8) * 2 + 1) % 0x10000
}

/// First byte of the tile data the BG1 tilemap entry covering screen pixel (`x`, `y`) selects.
pub open spec fn bg1_tile_start(v: PpuView, x: int, y: int) -> int {
    let world_x = (x + v.bg1_scroll_x) % 256;
    let world_y = (y + v.bg1_scroll_y) % 256;
    let low = (v.tilemap_base() + ((world_y / 8) * 32 + world_x / 8) * 2) % 0x10000;
    let number = v.vram[low] as int + 256 * (v.vram[bg1_entry_high(v, x, y)] as int % 4);
    (v.tiledata_base() + number * 32) % 0x10000
}

/// RGBA bytes BG1 shows at world position (`wx`, `wy`) when the tilemap entry covering it is
/// `entry`.
pub open spec fn bg1_world_pixel(v: PpuView, wx: int, wy: int, entry: int) -> Seq<u8> {
    let number = entry % 1024;
    let pal = (entry / 1024) % 8;
    let col = if (entry / 0x4000) % 2 == 1 { 7 - wx % 8 } else { wx % 8 };
    let row = if entry / 0x8000 == 1 { 7 - wy % 8 } else { wy % 8 };
    let start = (v.tiledata_base() + number * 32) % 0x10000;
    let index = spec_tile_pixel(v.vram, start, col, row);
    if index == 0 {
        spec_rgba(v.backdrop())
    } else {
        let c = (pal * 16 + index) * 2;
        spec_rgba((v.cgram[c % 512] as int + 256 * v.cgram[(c + 1) % 512] as int) as u16)
    }
}

proof fn lemma_bg1_pixel_by_entry(v: PpuView, x: int, y: int)
    ensures
        ({
            let wx = (x + v.bg1_scroll_x) % 256;
            let wy = (y + v.bg1_scroll_y) % 256;
            let low = (v.tilemap_base() + ((wy / 8) * 32 + wx / 8) * 2) % 0x10000;
            v.bg1_pixel(x, y) == bg1_world_pixel(v, wx, wy,
                v.vram[low] as int + 256 * v.vram[(low + 1) % 0x10000] as int)
        }),
{
}

proof fn lemma_tile_pixel_same(vram1: Seq<u8>, vram2: Seq<u8>, start: int, col: int, row: int)
    requires
        0 <= row < 8,
        forall|k: int| 0 <= k < 32 ==> #[trigger] vram1[(start + k) % 0x10000] == vram2[(start + k) % 0x10000],
    ensures
        spec_tile_pixel(vram1, start, col, row) == spec_tile_pixel(vram2, start, col, row),
{
    let k0 = row * 2;
    let k1 = row * 2 + 1;
    let k2 = 16 + row * 2;
    let k3 = 16 + row * 2 + 1;
    assert(vram1[(start + k0) % 0x10000] == vram2[(start + k0) % 0x10000]);
    assert(vram1[(start + k1) % 0x10000] == vram2[(start + k1) % 0x10000]);
    assert(vram1[(start + k2) % 0x10000] == vram2[(start + k2) % 0x10000]);
    assert(vram1[(start + k3) % 0x10000] == vram2[(start + k3) % 0x10000]);
    assert(start + k1 == start + row * 2 + 1);
    assert(start + k2 == start + 16 + row * 2);
    assert(start + k3 == start + 16 + row * 2 + 1);
}

/// Toggling bit 15 (vertical flip) of the BG1 tilemap entry covering screen pixel (`x`, `y`)
/// makes that pixel show what the mirrored row of the same tile showed before: the screen row
/// whose position inside the tile is 7 minus this one's. (The entry byte that changes must lie
/// outside the tile's 32 data bytes.)
pub proof fn lemma_bg1_vertical_flip(v: PpuView, x: int, y: int)
    requires
        ppu_shape(v),
        0 <= x < 256,
        0 <= y < 256,
        (bg1_entry_high(v, x, y) - bg1_tile_start(v, x, y)) % 0x10000 >= 32,
    ensures
        ({
            let hi = bg1_entry_high(v, x, y);
            let flipped = PpuView { vram: v.vram.update(hi, v.vram[hi] ^ 0x80u8), ..v };
            let row = (y + v.bg1_scroll_y) % 256 % 8;
            flipped.bg1_pixel(x, y) == v.bg1_pixel(x, y + 7 - 2 * row)
        }),
{
    let hi = bg1_entry_high(v, x, y);
    let flipped = PpuView { vram: v.vram.update(hi, v.vram[hi] ^ 0x80u8), ..v };
    let wx = (x + v.bg1_scroll_x) % 256;
    let wy = (y + v.bg1_scroll_y) % 256;
    let row = wy % 8;
    let y2 = y + 7 - 2 * row;
    let wy2 = (y2 + v.bg1_scroll_y) % 256;
    assert(wy2 == wy + 7 - 2 * row && wy2 / 8 == wy / 8 && wy2 % 8 == 7 - row) by (nonlinear_arith)
        requires
            wy == (y + v.bg1_scroll_y) % 256,
            row == wy % 8,
            y2 == y + 7 - 2 * row,
            wy2 == (y2 + v.bg1_scroll_y) % 256,
            0 <= y,
            0 <= v.bg1_scroll_y,
    ;
    let low = (v.tilemap_base() + ((wy / 8) * 32 + wx / 8) * 2) % 0x10000;
    assert(hi == (v.tilemap_base() + ((wy / 8) * 32 + wx / 8) * 2 + 1) % 0x10000);
    assert(hi == (low + 1) % 0x10000 && low != hi) by (nonlinear_arith)
        requires
            low == (v.tilemap_base() + ((wy / 8) * 32 + wx / 8) * 2) % 0x10000,
            hi == (v.tilemap_base() + ((wy / 8) * 32 + wx / 8) * 2 + 1) % 0x10000,
    ;
    let b = v.vram[hi];
    let b2 = b ^ 0x80u8;
    assert(b2 % 4 == b % 4 && (b2 / 4) % 8 == (b / 4) % 8 && (b2 / 64) % 2 == (b / 64) % 2
        && (b2 / 128 == 1) == !(b / 128 == 1)) by (bit_vector)
        requires
            b2 == b ^ 0x80u8,
    ;
    let lo = v.vram[low];
    let e = lo as int + 256 * b as int;
    let e2 = lo as int + 256 * b2 as int;
    assert(e % 1024 == e2 % 1024 && (e / 1024) % 8 == (e2 / 1024) % 8 && (e / 0x4000) % 2 == (e2 / 0x4000) % 2
        && (e / 0x8000 == 1) == !(e2 / 0x8000 == 1)) by (nonlinear_arith)
        requires
            e == lo as int + 256 * b as int,
            e2 == lo as int + 256 * b2 as int,
            0 <= lo < 256,
            b2 % 4 == b % 4,
            (b2 / 4) % 8 == (b / 4) % 8,
            (b2 / 64) % 2 == (b / 64) % 2,
            (b2 / 128 == 1) == !(b / 128 == 1),
            0 <= b < 256,
            0 <= b2 < 256,
    ;
    let start = bg1_tile_start(v, x, y);
    assert(start == (v.tiledata_base() + (e % 1024) * 32) % 0x10000) by (nonlinear_arith)
        requires
            start == (v.tiledata_base() + (lo as int + 256 * (b as int % 4)) * 32) % 0x10000,
            e == lo as int + 256 * b as int,
            0 <= lo < 256,
            0 <= b < 256,
    ;
    assert forall|k: int| 0 <= k < 32 implies #[trigger] flipped.vram[(start + k) % 0x10000] == v.vram[(start + k) % 0x10000] by {
        assert((start + k) % 0x10000 != hi) by (nonlinear_arith)
            requires
                (hi - start) % 0x10000 >= 32,
                0 <= k < 32,
                0 <= hi < 0x10000,
        ;
    }
    assert(flipped.vram[low] == lo);
    assert(flipped.vram[hi] == b2);
    lemma_bg1_pixel_by_entry(flipped, x, y);
    lemma_bg1_pixel_by_entry(v, x, y2);
    assert(flipped.tilemap_base() == v.tilemap_base() && flipped.tiledata_base() == v.tiledata_base());
    assert(flipped.backdrop() == v.backdrop());
    let fx = if (e / 0x4000) % 2 == 1 { 7 - wx % 8 } else { wx % 8 };
    let fy = if e / 0x8000 == 1 { 7 - wy2 % 8 } else { wy2 % 8 };
    lemma_tile_pixel_same(flipped.vram, v.vram, start, fx, fy);
    assert(bg1_world_pixel(flipped, wx, wy, e2) == bg1_world_pixel(v, wx, wy2, e));
}

/// Register, palette and video memory state of the PPU.
#[derive(Debug, PartialEq, Eq)]
pub struct Ppu {
    registers: Vec<u8>,
    cgram: Vec<u8>,
    vram: Vec<u8>,
    cgram_address: u16,
    vram_address: u16,
    vram_increment: u16,
    bg1_scroll_x: u16,
    bg1_scroll_y: u16,
    bg1_hofs_latch: Option<u8>,
    bg1_vofs_latch: Option<u8>,
}

impl View for Ppu {
    type V = PpuView;

    closed spec fn view(&self) -> PpuView {
        PpuView {
            registers: self.registers@,
            cgram: self.cgram@,
            vram: self.vram@,
            cgram_address: self.cgram_address,
            vram_address: self.vram_address,
            vram_increment: self.vram_increment,
            bg1_scroll_x: self.bg1_scroll_x,
            bg1_scroll_y: self.bg1_scroll_y,
            bg1_hofs_latch: self.bg1_hofs_latch,
            bg1_vofs_latch: self.bg1_vofs_latch,
        }
    }
}

/// Shape every PPU state has: memory sizes and a CGRAM address inside palette memory.
pub open spec fn ppu_shape(v: PpuView) -> bool {
    &&& v.registers.len() == 64
    &&& v.cgram.len() == 512
    &&& v.vram.len() == 0x10000
    &&& v.cgram_address < 512
}

impl Ppu {
    /// The state has the shape of [`ppu_shape`].
    pub open spec fn wf(&self) -> bool {
        ppu_shape(self@)
    }
}

/// The PPU at power-on: registers and memories cleared, VRAM stepping by one word.
pub open spec fn power_on_ppu() -> PpuView {
    PpuView {
        registers: Seq::new(64, |i: int| 0u8),
        cgram: Seq::new(512, |i: int| 0u8),
        vram: Seq::new(0x10000, |i: int| 0u8),
        cgram_address: 0,
        vram_address: 0,
        vram_increment: 1,
        bg1_scroll_x: 0,
        bg1_scroll_y: 0,
        bg1_hofs_latch: None,
        bg1_vofs_latch: None,
    }
}

impl Default for Ppu {
    fn default() -> (p: Self)
        ensures
            p@ == power_on_ppu(),
            p.wf(),
    {
        let p = Ppu {
            registers: vec![0u8; PPU_REGISTER_COUNT],
            cgram: vec![0u8; CGRAM_BYTES],
            vram: vec![0u8; VRAM_BYTES],
            cgram_address: 0,
            vram_address: 0,
            vram_increment: 1,
            bg1_scroll_x: 0,
            bg1_scroll_y: 0,
            bg1_hofs_latch: None,
            bg1_vofs_latch: None,
        };
        assert(p.registers@ =~= Seq::new(64, |i: int| 0u8));
        assert(p.cgram@ =~= Seq::new(512, |i: int| 0u8));
        assert(p.vram@ =~= Seq::new(0x10000, |i: int| 0u8));
        p
    }
}

impl Clone for Ppu {
    fn clone(&self) -> (p: Self)
        ensures
            p@ == self@,
    {
        let registers = self.registers.clone();
        let cgram = self.cgram.clone();
        let vram = self.vram.clone();
        assert(registers@ =~= self.registers@);
        assert(cgram@ =~= self.cgram@);
        assert(vram@ =~= self.vram@);
        Ppu {
            registers,
            cgram,
            vram,
            cgram_address: self.cgram_address,
            vram_address: self.vram_address,
            vram_increment: self.vram_increment,
            bg1_scroll_x: self.bg1_scroll_x,
            bg1_scroll_y: self.bg1_scroll_y,
            bg1_hofs_latch: self.bg1_hofs_latch,
            bg1_vofs_latch: self.bg1_vofs_latch,
        }
    }
}

fn vram_byte_index(address: u16, high_byte: bool) -> (i: usize)
    ensures
        i as int == vram_index(address, high_byte),
        i < 0x10000,
    no_unwind
{
    let word_index = address as usize * 2;
    (word_index + if high_byte { 1 } else { 0 }) % VRAM_BYTES
}

impl Ppu {
    /// Read one CPU-visible PPU register.
    pub fn read_register(&self, register: u16) -> (r: u8)
        requires
            self.wf(),
        ensures
            r == self@.read(register),
    {
        if register == 0x2139 {
            self.vram[vram_byte_index(self.vram_address, false)]
        } else if register == 0x213A {
            self.vram[vram_byte_index(self.vram_address, true)]
        } else if register == 0x213B {
            self.cgram[self.cgram_address as usize % CGRAM_BYTES]
        } else if 0x2100 <= register && register <= 0x213F {
            self.registers[(register - 0x2100) as usize]
        } else {
            0
        }
    }

    /// Write one CPU-visible PPU register.
    pub fn write_register(&mut self, register: u16, value: u8)
        requires
            old(self).wf(),
        ensures
            final(self)@ == old(self)@.write(register, value),
            final(self).wf(),
        no_unwind
    {
        if !(0x2100 <= register && register <= 0x213F) {
            return;
        }
        self.registers[(register - 0x2100) as usize] = value;
        if register == 0x210D {
            match self.bg1_hofs_latch {
                Some(low) => {
                    self.bg1_scroll_x = (low as u16 & 0x00FF) | ((value as u16) << 8u16);
                    self.bg1_hofs_latch = None;
                },
                None => {
                    self.bg1_hofs_latch = Some(value);
                },
            }
        } else if register == 0x210E {
            match self.bg1_vofs_latch {
                Some(low) => {
                    self.bg1_scroll_y = (low as u16 & 0x00FF) | ((value as u16) << 8u16);
                    self.bg1_vofs_latch = None;
                },
                None => {
                    self.bg1_vofs_latch = Some(value);
                },
            }
        } else if register == 0x2115 {
            self.vram_increment = if value & 0x03 == 0 {
                1
            } else if value & 0x03 == 1 {
                32
            } else {
                128
            };
        } else if register == 0x2116 {
            self.vram_address = (self.vram_address & 0xFF00) | (value as u16);
        } else if register == 0x2117 {
            self.vram_address = (self.vram_address & 0x00FF) | ((value as u16) << 8u16);
        } else if register == 0x2118 {
            self.write_vram_data(value, false);
        } else if register == 0x2119 {
            self.write_vram_data(value, true);
        } else if register == 0x2121 {
            self.cgram_address = value as u16 * 2;
        } else if register == 0x2122 {
            let index = self.cgram_address as usize % CGRAM_BYTES;
            self.cgram[index] = value;
            let next: u16 = self.cgram_address + 1;
            assert(next & 0x01FF == next % 512) by (bit_vector);
            self.cgram_address = next & 0x01FF;
        }
    }

    /// Raw CGRAM bytes.
    pub fn cgram(&self) -> (c: &[u8])
        ensures
            c@ == self@.cgram,
    {
        self.cgram.as_slice()
    }

    /// Raw VRAM bytes.
    pub fn vram(&self) -> (v: &[u8])
        ensures
            v@ == self@.vram,
    {
        self.vram.as_slice()
    }

    fn write_vram_data(&mut self, value: u8, high_byte: bool)
        requires
            ppu_shape(old(self)@),
        ensures
            final(self)@ == (PpuView {
                vram: old(self)@.vram.update(vram_index(old(self)@.vram_address, high_byte), value),
                vram_address: if high_byte {
                    ((old(self)@.vram_address + old(self)@.vram_increment) % 0x10000) as u16
                } else {
                    old(self)@.vram_address
                },
                ..old(self)@
            }),
        no_unwind
    {
        let index = vram_byte_index(self.vram_address, high_byte);
        self.vram[index] = value;
        if high_byte {
            self.vram_address = ((self.vram_address as u32 + self.vram_increment as u32) % 0x10000) as u16;
        }
    }
}

/// A register outside the data ports `$2139-$213B` reads back the byte last written to it.
pub proof fn lemma_register_write_then_read(v: PpuView, register: u16, value: u8)
    requires
        ppu_shape(v),
        0x2100 <= register <= 0x213F,
        !(0x2139 <= register <= 0x213B),
    ensures
        v.write(register, value).read(register) == value,
{
}

/// Selecting CGRAM entry `slot` through `$2121` and streaming two bytes through `$2122` stores
/// them as the low and high byte of that entry.
pub proof fn lemma_cgram_stream(v: PpuView, slot: u8, low: u8, high: u8)
    requires
        ppu_shape(v),
    ensures
        ({
            let w = v.write(0x2121, slot).write(0x2122, low).write(0x2122, high);
            w.cgram[slot * 2] == low && w.cgram[slot * 2 + 1] == high
        }),
{
}

/// A word written through `$2118`/`$2119` lands at the VRAM word address, and the address then
/// advances by the configured increment.
pub proof fn lemma_vram_word_write(v: PpuView, low: u8, high: u8)
    requires
        ppu_shape(v),
    ensures
        ({
            let w = v.write(0x2118, low).write(0x2119, high);
            &&& w.vram[vram_index(v.vram_address, false)] == low
            &&& w.vram[vram_index(v.vram_address, true)] == high
            &&& w.vram_address == (v.vram_address + v.vram_increment) % 0x10000
        }),
{
}

/// RGBA bytes of a BGR555 color.
fn bgr555_to_rgba(color: u16) -> (rgba: [u8; 4])
    ensures
        rgba@ == spec_rgba(color),
{
    let blue = ((color & 0x1F) as u8) << 3u8;
    let green = (((color >> 5u16) & 0x1F) as u8) << 3u8;
    let red = (((color >> 10u16) & 0x1F) as u8) << 3u8;
    assert(blue == (color % 32 * 8) as u8) by (bit_vector)
        requires blue == ((color & 0x1F) as u8) << 3u8;
    assert(green == ((color / 32) % 32 * 8) as u8) by (bit_vector)
        requires green == (((color >> 5u16) & 0x1F) as u8) << 3u8;
    assert(red == ((color / 1024) % 32 * 8) as u8) by (bit_vector)
        requires red == (((color >> 10u16) & 0x1F) as u8) << 3u8;
    let rgba = [red, green, blue, 0xFF];
    assert(rgba@ =~= spec_rgba(color));
    rgba
}

proof fn lemma_pixel_slot(k: int, j: int)
    requires
        0 <= k,
        4 * k <= j < 4 * k + 4,
    ensures
        j / 4 == k,
        j % 4 == j - 4 * k,
{
}

/// Fill every pixel of the frame with one color.
fn fill_frame(framebuffer: &mut FrameBuffer, rgba: [u8; 4])
    requires
        old(framebuffer).wf(),
    ensures
        final(framebuffer).wf(),
        forall|j: int| 0 <= j < 229376 ==> #[trigger] final(framebuffer).pixels_view()[j] == rgba@[j % 4],
{
    let mut k: usize = 0;
    while k < SCREEN_WIDTH * SCREEN_HEIGHT
        invariant
            framebuffer.wf(),
            k <= 256 * 224,
            forall|j: int| 0 <= j < 4 * k ==> #[trigger] framebuffer.pixels_view()[j] == rgba@[j % 4],
        decreases 256 * 224 - k,
    {
        framebuffer.set_pixel(k, rgba);
        assert forall|j: int| 0 <= j < 4 * (k + 1) implies #[trigger] framebuffer.pixels_view()[j]
            == rgba@[j % 4] by {
            if j >= 4 * k {
                lemma_pixel_slot(k as int, j);
            }
        }
        k = k + 1;
    }
}

impl Ppu {
    fn backdrop_color(&self) -> (c: u16)
        requires
            self.wf(),
        ensures
            c == self@.backdrop(),
    {
        (self.cgram[0] as u16) + 256 * (self.cgram[1] as u16)
    }

    fn tile_pixel_4bpp(&self, tiledata_base: usize, tile_number: usize, x: usize, y: usize) -> (c: u8)
        requires
            self.wf(),
            tiledata_base < 0x10000,
            tile_number < 1024,
            x < 8,
            y < 8,
        ensures
            c as int == spec_tile_pixel(
                self@.vram,
                (tiledata_base + tile_number * 32) % 0x10000,
                x as int,
                y as int,
            ),
            c < 16,
    {
        let tile_base = (tiledata_base + tile_number * 32) % VRAM_BYTES;
        let plane0 = self.vram[(tile_base + y * 2) % VRAM_BYTES];
        let plane1 = self.vram[(tile_base + y * 2 + 1) % VRAM_BYTES];
        let plane2 = self.vram[(tile_base + 16 + y * 2) % VRAM_BYTES];
        let plane3 = self.vram[(tile_base + 16 + y * 2 + 1) % VRAM_BYTES];
        let shift = (7 - x) as u8;
        let b0 = (plane0 >> shift) & 0x01;
        let b1 = (plane1 >> shift) & 0x01;
        let b2 = (plane2 >> shift) & 0x01;
        let b3 = (plane3 >> shift) & 0x01;
        assert(b0 <= 1 && b1 <= 1 && b2 <= 1 && b3 <= 1) by (bit_vector)
            requires
                b0 == (plane0 >> shift) & 0x01,
                b1 == (plane1 >> shift) & 0x01,
                b2 == (plane2 >> shift) & 0x01,
                b3 == (plane3 >> shift) & 0x01,
        ;
        let c = b0 | (b1 << 1u8) | (b2 << 2u8) | (b3 << 3u8);
        assert(c == b0 + 2 * b1 + 4 * b2 + 8 * b3) by (bit_vector)
            requires
                c == b0 | (b1 << 1u8) | (b2 << 2u8) | (b3 << 3u8),
                b0 <= 1,
                b1 <= 1,
                b2 <= 1,
                b3 <= 1,
        ;
        c
    }

    fn bg1_pixel(&self, x: u16, y: u16, tilemap_base: usize, tiledata_base: usize, backdrop: [u8; 4]) -> (p: [u8; 4])
        requires
            self.wf(),
            tilemap_base as int == self@.tilemap_base(),
            tiledata_base as int == self@.tiledata_base(),
            backdrop@ == spec_rgba(self@.backdrop()),
        ensures
            p@ == self@.bg1_pixel(x as int, y as int),
    {
        let world_x = ((x as u32 + self.bg1_scroll_x as u32) % 256) as usize;
        let world_y = ((y as u32 + self.bg1_scroll_y as u32) % 256) as usize;
        let tile_x = world_x / 8;
        let tile_y = world_y / 8;
        let tile_index = tile_y * 32 + tile_x;
        let entry_index = (tilemap_base + tile_index * 2) % VRAM_BYTES;
        let entry = self.vram[entry_index] as usize + 256 * self.vram[(entry_index + 1) % VRAM_BYTES] as usize;
        let tile_number = entry % 1024;
        let palette = (entry / 1024) % 8;
        let hflip = (entry / 0x4000) % 2 == 1;
        let vflip = entry / 0x8000 == 1;
        let fine_x = world_x % 8;
        let fine_y = world_y % 8;
        let tx = if hflip { 7 - fine_x } else { fine_x };
        let ty = if vflip { 7 - fine_y } else { fine_y };
        let color_index = self.tile_pixel_4bpp(tiledata_base, tile_number, tx, ty);
        if color_index == 0 {
            return backdrop;
        }
        let cgram_index = (palette * 16 + color_index as usize) * 2;
        let color = (self.cgram[cgram_index % CGRAM_BYTES] as u16)
            + 256 * (self.cgram[(cgram_index + 1) % CGRAM_BYTES] as u16);
        bgr555_to_rgba(color)
    }

    #[verifier::spinoff_prover]
    #[verifier::rlimit(50)]
    fn render_bg1(&self, framebuffer: &mut FrameBuffer, backdrop: [u8; 4])
        requires
            self.wf(),
            old(framebuffer).wf(),
            backdrop@ == spec_rgba(self@.backdrop()),
            self@.registers[0x00] < 0x80,
            self@.registers[0x2C] % 2 == 1,
        ensures
            final(framebuffer).wf(),
            final(framebuffer).pixels_view() == self@.frame(),
    {
        let mode_byte = self.registers[0x05];
        let bgmode = mode_byte & 0x07;
        assert(bgmode == mode_byte % 8) by (bit_vector)
            requires bgmode == mode_byte & 0x07;
        if bgmode > 1 {
            fill_frame(framebuffer, backdrop);
            assert(framebuffer.pixels_view() =~= self@.frame());
            return;
        }
        let tilemap_base = (self.registers[0x07] as usize / 4) * 1024;
        let tiledata_base = (self.registers[0x0B] as usize % 16) * 4096;
        let mut y: usize = 0;
        while y < SCREEN_HEIGHT
            invariant
                self.wf(),
                framebuffer.wf(),
                y <= 224,
                tilemap_base as int == self@.tilemap_base(),
                tiledata_base as int == self@.tiledata_base(),
                backdrop@ == spec_rgba(self@.backdrop()),
                self@.registers[0x00] < 0x80,
                self@.registers[0x2C] % 2 == 1,
                self@.registers[0x05] % 8 <= 1,
                forall|j: int| 0 <= j < 4 * (256 * y) ==> #[trigger] framebuffer.pixels_view()[j]
                    == self@.frame()[j],
            decreases 224 - y,
        {
            let mut x: usize = 0;
            while x < SCREEN_WIDTH
                invariant
                    self.wf(),
                    framebuffer.wf(),
                    y < 224,
                    x <= 256,
                    tilemap_base as int == self@.tilemap_base(),
                    tiledata_base as int == self@.tiledata_base(),
                    backdrop@ == spec_rgba(self@.backdrop()),
                    self@.registers[0x00] < 0x80,
                    self@.registers[0x2C] % 2 == 1,
                    self@.registers[0x05] % 8 <= 1,
                    forall|j: int| 0 <= j < 4 * (256 * y + x) ==> #[trigger] framebuffer.pixels_view()[j]
                        == self@.frame()[j],
                decreases 256 - x,
            {
                let pixel = self.bg1_pixel(x as u16, y as u16, tilemap_base, tiledata_base, backdrop);
                let k = y * SCREEN_WIDTH + x;
                framebuffer.set_pixel(k, pixel);
                assert forall|j: int| 0 <= j < 4 * (256 * y + x + 1) implies #[trigger] framebuffer.pixels_view()[j]
                    == self@.frame()[j] by {
                    if j >= 4 * k {
                        lemma_pixel_slot(k as int, j);
                        assert((k as int) % 256 == x && (k as int) / 256 == y);
                    }
                }
                x = x + 1;
            }
            y = y + 1;
        }
        assert(framebuffer.pixels_view() =~= self@.frame());
    }

    /// Render one frame of the current state.
    pub fn render_frame(&self, framebuffer: &mut FrameBuffer)
        requires
            self.wf(),
            old(framebuffer).wf(),
        ensures
            final(framebuffer).wf(),
            final(framebuffer).pixels_view() == self@.frame(),
    {
        let display = self.registers[0x00];
        let forced_blank = display & 0x80 != 0;
        assert(forced_blank == (display >= 0x80)) by (bit_vector)
            requires forced_blank == (display & 0x80 != 0);
        if forced_blank {
            let black: [u8; 4] = [0, 0, 0, 0xFF];
            fill_frame(framebuffer, black);
            assert(framebuffer.pixels_view() =~= self@.frame());
            return;
        }
        let backdrop = bgr555_to_rgba(self.backdrop_color());
        let main_screen = self.registers[0x2C];
        let screen = main_screen & 0x01;
        assert(screen == main_screen % 2) by (bit_vector)
            requires screen == main_screen & 0x01;
        if screen == 0 {
            fill_frame(framebuffer, backdrop);
            assert(framebuffer.pixels_view() =~= self@.frame());
            return;
        }
        self.render_bg1(framebuffer, backdrop);
    }
}

} // verus!
