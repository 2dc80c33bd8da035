//! ROM-based regression fixtures and their evaluation against the in-tree emulator.
use vstd::prelude::*;
use vstd::std_specs::hash::DefaultHasherAdditionalSpecFns;
use std::collections::hash_map::DefaultHasher;
use std::hash::Hasher;

use crate::cartridge::Cartridge;
use crate::coprocessor::TrigTable;
use crate::apu::SPC700_IPL_ROM_LEN;
use crate::emulator::{
    frame_stopped, frames_run, host_reads, host_writes, lemma_frames_none, lemma_frames_push,
    lemma_host_reads_none, lemma_host_reads_push, lemma_host_writes_none, lemma_host_writes_push, rom_loaded,
    Emulator, EmulatorBuilder,
};
use crate::error::{Error, Result};
use crate::manifest::AssetConfig;
use crate::ppu::FrameBuffer;
use crate::text::{decimal, hex_padded, push_decimal, push_hex};
use super::{consistent_counts, failures_text, lemma_report_counts, passed_count, reports, retained, RunSummary, Tally};

verus! {

/// One host-assisted ROM regression case.
#[derive(Debug, Clone, PartialEq, Eq)]
pub struct RomFixture {
    /// Human-readable fixture name.
    pub name: String,
    /// ROM path relative to the suite file.
    pub rom: String,
    /// Number of frames to execute.
    pub frames: u32,
    /// Host writes applied after ROM load and before execution.
    pub setup_writes: Vec<(u32, u8)>,
    /// Host reads verified after execution completes.
    pub expected_reads: Vec<(u32, u8)>,
    /// Expected post-run results.
    pub expected: ExpectedOutcome,
}

/// Expected result from a ROM regression fixture.
#[derive(Debug, Clone, Copy, PartialEq, Eq)]
pub struct ExpectedOutcome {
    /// Expected frame counter after execution.
    pub frame: Option<u64>,
    /// Expected CPU program counter after execution.
    pub cpu_pc: Option<u16>,
    /// Expected framebuffer hash.
    pub frame_hash: Option<u64>,
    /// Expected save-RAM length.
    pub save_ram_len: Option<usize>,
    /// Minimum APU step count.
    pub min_apu_steps: Option<u64>,
    /// Optional first pixel RGBA value.
    pub first_pixel_rgba: Option<[u8; 4]>,
}

/// What a fixture run leaves behind to be checked.
#[derive(Debug, Clone, Copy, PartialEq, Eq)]
pub struct RunObservation {
    /// Frame counter.
    pub frame: u64,
    /// CPU program counter.
    pub cpu_pc: u16,
    /// Framebuffer hash.
    pub frame_hash: u64,
    /// Save-RAM length, zero without save RAM.
    pub save_ram_len: usize,
    /// SPC700 steps taken.
    pub apu_steps: u64,
    /// RGBA bytes of the first pixel.
    pub first_pixel: [u8; 4],
}

/// The `k` low bytes of `n`, least significant first.
pub open spec fn le_bytes(n: nat, k: nat) -> Seq<u8>
    decreases k,
{
    if k == 0 {
        seq![]
    } else {
        seq![(n % 256) as u8] + le_bytes(n / 256, (k - 1) as nat)
    }
}

/// `b` is `n` written as a machine word: four or eight bytes, least or most significant first.
pub open spec fn machine_word(n: nat, b: Seq<u8>) -> bool {
    &&& b.len() == 4 || b.len() == 8
    &&& b == le_bytes(n, b.len()) || b == le_bytes(n, b.len()).reverse()
}

/// `h` is what `DefaultHasher` gives for a frame of 256 by 224 pixels with these bytes, fed
/// as `Hash` feeds two `usize` values and a byte slice: width, height and byte count as machine
/// words, then the bytes.
pub open spec fn frame_digest(pixels: Seq<u8>, h: u64) -> bool {
    exists|w: Seq<u8>, ht: Seq<u8>, n: Seq<u8>| {
        &&& machine_word(256, w)
        &&& machine_word(224, ht)
        &&& machine_word(pixels.len(), n)
        &&& h == DefaultHasher::spec_finish(seq![w, ht, n, pixels])
    }
}

/// The bytes of `n` in the machine's own width and byte order.
///
/// Wraps `usize::to_ne_bytes` (the array is handed back as a vector): `n` in four or eight
/// bytes, as wide as a `usize` is, least or most significant first as the target orders them.
#[verifier::external_body]
fn native_bytes(n: usize) -> (b: Vec<u8>)
    ensures
        machine_word(n as nat, b@),
{
    n.to_ne_bytes().to_vec()
}

/// The hash regression fixtures compare frames by: `DefaultHasher` fed, as `Hash` feeds it for
/// two `usize` values and a byte slice, the width, the height, the pixel count (each in the
/// machine's own bytes) and the pixel bytes. The machine words make the digest differ
/// between targets, and std may change the algorithm between releases.
pub fn framebuffer_hash(framebuffer: &FrameBuffer) -> (h: u64)
    ensures
        frame_digest(framebuffer.pixels_view(), h),
{
    let pixels = framebuffer.pixels();
    let mut hasher = DefaultHasher::new();
    let w = native_bytes(framebuffer.width());
    hasher.write(w.as_slice());
    let ht = native_bytes(framebuffer.height());
    hasher.write(ht.as_slice());
    let n = native_bytes(pixels.len());
    hasher.write(n.as_slice());
    hasher.write(pixels);
    assert(hasher@ =~= seq![w@, ht@, n@, framebuffer.pixels_view()]);
    hasher.finish()
}

/// Four bytes written as the derived debug form of an array.
pub open spec fn rgba_text(p: [u8; 4]) -> Seq<char> {
    "["@ + decimal(p[0] as nat) + ", "@ + decimal(p[1] as nat) + ", "@ + decimal(p[2] as nat) + ", "@
        + decimal(p[3] as nat) + "]"@
}

/// One mismatch per expected host read that the run did not see.
pub open spec fn read_reasons(expected: Seq<(u32, u8)>, seen: Seq<u8>) -> Seq<Seq<char>>
    decreases expected.len(),
{
    if expected.len() == 0 {
        seq![]
    } else {
        let n = expected.len() - 1;
        let (address, want) = expected[n];
        let earlier = read_reasons(expected.drop_last(), seen);
        if seen[n] != want {
            earlier.push("host read mismatch at 0x"@ + hex_padded(address as nat, 6) + ": expected 0x"@
                + hex_padded(want as nat, 2) + ", got 0x"@ + hex_padded(seen[n] as nat, 2))
        } else {
            earlier
        }
    }
}

/// The mismatches between a fixture's expectations and what its run left behind.
pub open spec fn outcome_reasons(e: ExpectedOutcome, o: RunObservation) -> Seq<Seq<char>> {
    let frame = match e.frame {
        Some(f) if f != o.frame => seq!["frame mismatch: expected "@ + decimal(f as nat) + ", got "@ + decimal(o.frame as nat)],
        _ => seq![],
    };
    let pc = match e.cpu_pc {
        Some(p) if p != o.cpu_pc => seq!["cpu pc mismatch: expected 0x"@ + hex_padded(p as nat, 4) + ", got 0x"@
            + hex_padded(o.cpu_pc as nat, 4)],
        _ => seq![],
    };
    let hash = match e.frame_hash {
        Some(h) if h != o.frame_hash => seq!["frame hash mismatch: expected 0x"@ + hex_padded(h as nat, 16)
            + ", got 0x"@ + hex_padded(o.frame_hash as nat, 16)],
        _ => seq![],
    };
    let ram = match e.save_ram_len {
        Some(l) if l != o.save_ram_len => seq!["save RAM length mismatch: expected "@ + decimal(l as nat) + ", got "@
            + decimal(o.save_ram_len as nat)],
        _ => seq![],
    };
    let steps = match e.min_apu_steps {
        Some(s) if o.apu_steps < s => seq!["APU steps below minimum: expected at least "@ + decimal(s as nat)
            + ", got "@ + decimal(o.apu_steps as nat)],
        _ => seq![],
    };
    let pixel = match e.first_pixel_rgba {
        Some(p) if p@ != o.first_pixel@ => seq!["first pixel mismatch: expected "@ + rgba_text(p) + ", got "@
            + rgba_text(o.first_pixel)],
        _ => seq![],
    };
    frame + pc + hash + ram + steps + pixel
}

/// The mismatches of a fixture run: host reads first, then the outcome checks.
pub open spec fn fixture_reasons(f: RomFixture, seen: Seq<u8>, o: RunObservation) -> Seq<Seq<char>> {
    read_reasons(f.expected_reads@, seen) + outcome_reasons(f.expected, o)
}

/// The emulator `e` shows `o`: its frame counter, program counter, SPC700 step count,
/// save-RAM length (zero without a cartridge), the first pixel of its frame buffer and the
/// frame buffer's hash.
pub open spec fn shows(e: Emulator, o: RunObservation) -> bool {
    &&& o.frame == e.system_view().timing.frame
    &&& o.cpu_pc == e.cpu_regs().pc
    &&& o.apu_steps == e.apu_view().spc700_steps
    &&& o.save_ram_len == if e.system_view().cartridge is Some { e.system_view().save_ram.len() } else { 0 }
    &&& o.first_pixel@ == e.frame().pixels_view().subrange(0, 4)
    &&& frame_digest(e.frame().pixels_view(), o.frame_hash)
}

/// Two cartridges with the same image, header, mapping and source.
pub open spec fn same_cartridge(a: Cartridge, b: Cartridge) -> bool {
    &&& a.rom_view() == b.rom_view()
    &&& a.header_view() == b.header_view()
    &&& a.mapper_view() == b.mapper_view()
    &&& a.source_view() == b.source_view()
}

/// `e` is a fresh emulator for a fixture run: built with `assets` and the tables `trig`, with
/// the IPL firmware the host read (`ipl`) installed when the assets configure one and it has
/// the right length, and no cartridge yet.
pub open spec fn fresh_for_fixture(assets: AssetConfig, trig: TrigTable, ipl: Option<Seq<u8>>, e: Emulator) -> bool {
    &&& e.wf()
    &&& e.system_view().cartridge is None
    &&& e.system_view().trig.sin_view() == trig.sin_view()
    &&& e.system_view().trig.cos_view() == trig.cos_view()
    &&& e.apu_view().configured_ipl_path == assets.spc700_ipl
    &&& e.apu_view().ipl_rom == if assets.spc700_ipl is Some && ipl is Some && ipl->0.len() == SPC700_IPL_ROM_LEN {
        ipl
    } else {
        None
    }
}

/// `e0` is where a run of fixture `f` starts: a fresh emulator with the cartridge `c` loaded
/// and the fixture's setup writes applied.
pub open spec fn fixture_start(f: RomFixture, c: Cartridge, assets: AssetConfig, trig: TrigTable, ipl: Option<Seq<u8>>, e0: Emulator) -> bool {
    exists|built: Emulator, cart: Cartridge, loaded: Emulator| {
        &&& fresh_for_fixture(assets, trig, ipl, built)
        &&& same_cartridge(cart, c)
        &&& #[trigger] rom_loaded(built, cart, loaded)
        &&& host_writes(loaded, f.setup_writes@, e0)
    }
}

/// From the start `e0`, the run of fixture `f` stopped on `e` before its frames were done.
pub open spec fn run_stopped(f: RomFixture, e0: Emulator, e: Error) -> bool {
    exists|k: nat, mid: Emulator| k < f.frames && #[trigger] frames_run(e0, mid, k) && frame_stopped(mid, e)
}

/// From the start `e0`, the run of fixture `f` went through its frames, then its expected host
/// reads gave `seen`, and the emulator left behind shows `o`.
pub open spec fn run_finished(f: RomFixture, e0: Emulator, seen: Seq<u8>, o: RunObservation) -> bool {
    exists|done: Emulator, read: Emulator| {
        &&& frames_run(e0, done, f.frames as nat)
        &&& #[trigger] host_reads(done, f.expected_reads@, seen, read)
        &&& shows(read, o)
    }
}

/// What evaluating fixture `f` with `cartridge` reports: the cartridge's error; or, for the run
/// from this fixture's start, the error it stopped on or the mismatches against what it left
/// behind.
pub open spec fn possible_outcome(
    f: RomFixture,
    cartridge: Result<Cartridge>,
    assets: AssetConfig,
    trig: TrigTable,
    ipl: Option<Seq<u8>>,
    outcome: Seq<Seq<char>>,
) -> bool {
    match cartridge {
        Err(e) => outcome == seq![e.spec_message()],
        Ok(c) => exists|e0: Emulator| {
            &&& #[trigger] fixture_start(f, c, assets, trig, ipl, e0)
            &&& {
                ||| exists|e: Error| run_stopped(f, e0, e) && outcome == seq![#[trigger] e.spec_message()]
                ||| exists|seen: Seq<u8>, o: RunObservation|
                    run_finished(f, e0, seen, o) && outcome == #[trigger] fixture_reasons(f, seen, o)
            }
        },
    }
}

/// A fixture start does not depend on which copy of a cartridge was loaded.
proof fn lemma_start_same_cartridge(
    f: RomFixture,
    copy: Cartridge,
    c: Cartridge,
    assets: AssetConfig,
    trig: TrigTable,
    ipl: Option<Seq<u8>>,
    e0: Emulator,
)
    requires
        fixture_start(f, copy, assets, trig, ipl, e0),
        same_cartridge(copy, c),
    ensures
        fixture_start(f, c, assets, trig, ipl, e0),
{
    let (built, cart, loaded) = choose|built: Emulator, cart: Cartridge, loaded: Emulator| {
        &&& fresh_for_fixture(assets, trig, ipl, built)
        &&& same_cartridge(cart, copy)
        &&& #[trigger] rom_loaded(built, cart, loaded)
        &&& host_writes(loaded, f.setup_writes@, e0)
    };
    assert(same_cartridge(cart, c));
}

/// The IPL firmware bytes the host read, if any.
pub open spec fn ipl_view(ipl: Option<&[u8]>) -> Option<Seq<u8>> {
    match ipl {
        Some(b) => Some(b@),
        None => None,
    }
}

/// The labels fixtures are reported under: their names.
pub open spec fn fixture_labels(fixtures: Seq<RomFixture>) -> Seq<Seq<char>> {
    fixtures.map_values(|f: RomFixture| f.name@)
}

fn push_rgba(s: &mut String, p: &[u8; 4])
    ensures
        final(s)@ == old(s)@ + rgba_text(*p),
{
    s.append("[");
    push_decimal(s, p[0] as u64);
    s.append(", ");
    push_decimal(s, p[1] as u64);
    s.append(", ");
    push_decimal(s, p[2] as u64);
    s.append(", ");
    push_decimal(s, p[3] as u64);
    s.append("]");
    assert(final(s)@ =~= old(s)@ + rgba_text(*p));
}

/// Append `m` to `reasons`.
fn push_reason(reasons: &mut Vec<String>, m: String)
    ensures
        final(reasons).deep_view() == old(reasons).deep_view().push(m@),
{
    reasons.push(m);
    assert(reasons.deep_view() =~= old(reasons).deep_view().push(m@));
}

/// The mismatches between a fixture's expectations and what its run left behind.
#[verifier::rlimit(40)]
pub fn fixture_reasons_of(fixture: &RomFixture, seen: &Vec<u8>, observed: &RunObservation) -> (reasons: Vec<String>)
    requires
        seen@.len() == fixture.expected_reads@.len(),
    ensures
        reasons.deep_view() == fixture_reasons(*fixture, seen@, *observed),
{
    let mut reasons: Vec<String> = Vec::new();
    let mut i: usize = 0;
    assert(fixture.expected_reads@.subrange(0, 0) =~= Seq::<(u32, u8)>::empty());
    while i < fixture.expected_reads.len()
        invariant
            i <= fixture.expected_reads@.len(),
            seen@.len() == fixture.expected_reads@.len(),
            reasons.deep_view() == read_reasons(fixture.expected_reads@.subrange(0, i as int), seen@),
        decreases fixture.expected_reads@.len() - i,
    {
        let (address, want) = fixture.expected_reads[i];
        let got = seen[i];
        let ghost prefix = fixture.expected_reads@.subrange(0, i + 1);
        assert(prefix.drop_last() =~= fixture.expected_reads@.subrange(0, i as int));
        assert(prefix[i as int] == (address, want));
        if got != want {
            let mut m = String::new();
            m.append("host read mismatch at 0x");
            push_hex(&mut m, address as u64, 6);
            m.append(": expected 0x");
            push_hex(&mut m, want as u64, 2);
            m.append(", got 0x");
            push_hex(&mut m, got as u64, 2);
            push_reason(&mut reasons, m);
        }
        i = i + 1;
    }
    assert(fixture.expected_reads@.subrange(0, i as int) =~= fixture.expected_reads@);
    let ghost base = reasons.deep_view();
    let e = &fixture.expected;
    let o = observed;
    match e.frame {
        Some(f) => if f != o.frame {
            let mut m = String::new();
            m.append("frame mismatch: expected ");
            push_decimal(&mut m, f);
            m.append(", got ");
            push_decimal(&mut m, o.frame);
            push_reason(&mut reasons, m);
        },
        None => {},
    }
    match e.cpu_pc {
        Some(p) => if p != o.cpu_pc {
            let mut m = String::new();
            m.append("cpu pc mismatch: expected 0x");
            push_hex(&mut m, p as u64, 4);
            m.append(", got 0x");
            push_hex(&mut m, o.cpu_pc as u64, 4);
            push_reason(&mut reasons, m);
        },
        None => {},
    }
    match e.frame_hash {
        Some(h) => if h != o.frame_hash {
            let mut m = String::new();
            m.append("frame hash mismatch: expected 0x");
            push_hex(&mut m, h, 16);
            m.append(", got 0x");
            push_hex(&mut m, o.frame_hash, 16);
            push_reason(&mut reasons, m);
        },
        None => {},
    }
    match e.save_ram_len {
        Some(l) => if l != o.save_ram_len {
            let mut m = String::new();
            m.append("save RAM length mismatch: expected ");
            push_decimal(&mut m, l as u64);
            m.append(", got ");
            push_decimal(&mut m, o.save_ram_len as u64);
            push_reason(&mut reasons, m);
        },
        None => {},
    }
    match e.min_apu_steps {
        Some(s) => if o.apu_steps < s {
            let mut m = String::new();
            m.append("APU steps below minimum: expected at least ");
            push_decimal(&mut m, s);
            m.append(", got ");
            push_decimal(&mut m, o.apu_steps);
            push_reason(&mut reasons, m);
        },
        None => {},
    }
    match e.first_pixel_rgba {
        Some(p) => {
            let same = p[0] == o.first_pixel[0] && p[1] == o.first_pixel[1] && p[2] == o.first_pixel[2]
                && p[3] == o.first_pixel[3];
            assert(same <==> p@ =~= o.first_pixel@);
            if !same {
                let mut m = String::new();
                m.append("first pixel mismatch: expected ");
                push_rgba(&mut m, &p);
                m.append(", got ");
                push_rgba(&mut m, &o.first_pixel);
                push_reason(&mut reasons, m);
            }
        },
        None => {},
    }
    assert(reasons.deep_view() =~= base + outcome_reasons(*e, *o));
    reasons
}

/// Run a fixture's ROM: load it (with the IPL firmware the host read, when there is one), apply
/// the setup writes, run the frames and collect what the checks need.
pub fn run_fixture(fixture: &RomFixture, cartridge: Cartridge, assets: &AssetConfig, trig: &TrigTable, ipl: Option<&[u8]>) -> (r: Result<(Vec<u8>, RunObservation)>)
    ensures
        r matches Ok((seen, _)) ==> seen@.len() == fixture.expected_reads@.len(),
        exists|e0: Emulator| {
            &&& #[trigger] fixture_start(*fixture, cartridge, *assets, *trig, ipl_view(ipl), e0)
            &&& match r {
                Ok((seen, o)) => run_finished(*fixture, e0, seen@, o),
                Err(e) => run_stopped(*fixture, e0, e),
            }
        },
        fixture.frames == 0 ==> r is Ok,
{
    let mut emulator = EmulatorBuilder::new().assets(assets.clone()).trig_table(trig.clone()).build();
    let read = match ipl {
        Some(bytes) => Ok(vstd::slice::slice_to_vec(bytes)),
        None => Err(Error::MissingFirmware { name: "SPC700 IPL ROM".to_owned() }),
    };
    let _ = emulator.load_apu_ipl_rom(read);
    let ghost built = emulator;
    assert(fresh_for_fixture(*assets, *trig, ipl_view(ipl), built));
    let ghost cart = cartridge;
    emulator.load_rom(cartridge);
    let ghost loaded = emulator;
    proof { lemma_host_writes_none(loaded); }
    assert(fixture.setup_writes@.subrange(0, 0) =~= Seq::<(u32, u8)>::empty());
    let mut i: usize = 0;
    while i < fixture.setup_writes.len()
        invariant
            i <= fixture.setup_writes@.len(),
            emulator.wf(),
            emulator.system_view().cartridge is Some,
            host_writes(loaded, fixture.setup_writes@.subrange(0, i as int), emulator),
        decreases fixture.setup_writes@.len() - i,
    {
        let (address, value) = fixture.setup_writes[i];
        let ghost before = emulator;
        emulator.host_write_u8(address, value);
        proof {
            lemma_host_writes_push(loaded, fixture.setup_writes@.subrange(0, i as int), before, (address, value), emulator);
            assert(fixture.setup_writes@.subrange(0, i as int).push((address, value))
                =~= fixture.setup_writes@.subrange(0, i + 1));
        }
        i = i + 1;
    }
    assert(fixture.setup_writes@.subrange(0, i as int) =~= fixture.setup_writes@);
    let ghost e0 = emulator;
    assert(same_cartridge(cart, cart));
    assert(fixture_start(*fixture, cart, *assets, *trig, ipl_view(ipl), e0));
    proof { lemma_frames_none(e0); }
    let mut frame: u32 = 0;
    while frame < fixture.frames
        invariant
            emulator.wf(),
            emulator.system_view().cartridge is Some,
            frames_run(e0, emulator, frame as nat),
            frame <= fixture.frames,
            fixture_start(*fixture, cart, *assets, *trig, ipl_view(ipl), e0),
            cart == cartridge,
        decreases fixture.frames - frame,
    {
        let ghost mid = emulator;
        match emulator.run_until_frame() {
            Ok(()) => {},
            Err(e) => {
                assert(frames_run(e0, mid, frame as nat) && frame_stopped(mid, e));
                assert(run_stopped(*fixture, e0, e));
                return Err(e);
            },
        }
        proof { lemma_frames_push(e0, mid, emulator, frame as nat); }
        frame = frame + 1;
    }
    let ghost done = emulator;
    proof { lemma_host_reads_none(done); }
    assert(fixture.expected_reads@.subrange(0, 0) =~= Seq::<(u32, u8)>::empty());
    let mut seen: Vec<u8> = Vec::new();
    assert(seen@ =~= Seq::<u8>::empty());
    let mut k: usize = 0;
    while k < fixture.expected_reads.len()
        invariant
            emulator.wf(),
            emulator.system_view().cartridge is Some,
            k <= fixture.expected_reads@.len(),
            seen@.len() == k,
            host_reads(done, fixture.expected_reads@.subrange(0, k as int), seen@, emulator),
        decreases fixture.expected_reads@.len() - k,
    {
        let (address, expected) = fixture.expected_reads[k];
        let ghost before = emulator;
        let ghost seen0 = seen@;
        let value = emulator.host_read_u8(address);
        seen.push(value);
        proof {
            lemma_host_reads_push(done, fixture.expected_reads@.subrange(0, k as int), seen0, before, (address, expected), value, emulator);
            assert(fixture.expected_reads@.subrange(0, k as int).push((address, expected))
                =~= fixture.expected_reads@.subrange(0, k + 1));
        }
        k = k + 1;
    }
    assert(fixture.expected_reads@.subrange(0, k as int) =~= fixture.expected_reads@);
    let pixels = emulator.framebuffer().pixels();
    let observed = RunObservation {
        frame: emulator.timing().frame,
        cpu_pc: emulator.cpu_registers().pc,
        frame_hash: framebuffer_hash(emulator.framebuffer()),
        save_ram_len: match emulator.save_ram() {
            Some(bytes) => bytes.len(),
            None => 0,
        },
        apu_steps: emulator.apu_status().spc700_steps,
        first_pixel: [pixels[0], pixels[1], pixels[2], pixels[3]],
    };
    assert(observed.first_pixel@ =~= emulator.frame().pixels_view().subrange(0, 4));
    assert(shows(emulator, observed));
    assert(run_finished(*fixture, e0, seen@, observed));
    Ok((seen, observed))
}

/// Evaluate one fixture: a cartridge error or run error is its one reason; otherwise the
/// mismatches against what the run left behind.
pub fn evaluate_fixture(fixture: &RomFixture, cartridge: &Result<Cartridge>, assets: &AssetConfig, trig: &TrigTable, ipl: Option<&[u8]>) -> (reasons: Vec<String>)
    ensures
        possible_outcome(*fixture, *cartridge, *assets, *trig, ipl_view(ipl), reasons.deep_view()),
{
    let cart = match cartridge {
        Ok(c) => c.clone(),
        Err(e) => {
            let mut reasons: Vec<String> = Vec::new();
            push_reason(&mut reasons, e.message());
            assert(reasons.deep_view() =~= seq![e.spec_message()]);
            return reasons;
        },
    };
    let ghost c = cartridge->Ok_0;
    let ghost copy = cart;
    assert(same_cartridge(copy, c));
    let r = run_fixture(fixture, cart, assets, trig, ipl);
    let ghost e0 = choose|e0: Emulator| {
        &&& #[trigger] fixture_start(*fixture, copy, *assets, *trig, ipl_view(ipl), e0)
        &&& match r {
            Ok((seen, o)) => run_finished(*fixture, e0, seen@, o),
            Err(e) => run_stopped(*fixture, e0, e),
        }
    };
    proof { lemma_start_same_cartridge(*fixture, copy, c, *assets, *trig, ipl_view(ipl), e0); }
    match r {
        Err(e) => {
            let mut reasons: Vec<String> = Vec::new();
            push_reason(&mut reasons, e.message());
            assert(reasons.deep_view() == seq![e.spec_message()]);
            reasons
        },
        Ok((seen, observed)) => {
            let reasons = fixture_reasons_of(fixture, &seen, &observed);
            assert(reasons.deep_view() == fixture_reasons(*fixture, seen@, observed));
            reasons
        },
    }
}

/// Execute the suite against the current in-tree emulator. `cartridges[i]` is what loading the
/// ROM of `fixtures[i]` gave; `trig` holds the tables math coprocessors use and `ipl` the
/// configured IPL firmware bytes the host read.
pub fn run_with_current_core(
    fixtures: &[RomFixture],
    cartridges: &[Result<Cartridge>],
    assets: &AssetConfig,
    trig: &TrigTable,
    ipl: Option<&[u8]>,
    max_failures: usize,
) -> (summary: RunSummary)
    requires
        cartridges@.len() == fixtures@.len(),
    ensures
        summary.suite_name@ == "ROM regression"@,
        consistent_counts(summary, max_failures as nat),
        exists|outcomes: Seq<Seq<Seq<char>>>| {
            &&& outcomes.len() == fixtures@.len()
            &&& #[trigger] reports(summary, fixture_labels(fixtures@), outcomes, max_failures as nat)
            &&& forall|i: int| 0 <= i < outcomes.len() ==> possible_outcome(fixtures@[i], cartridges@[i], *assets, *trig, ipl_view(ipl), #[trigger] outcomes[i])
        },
{
    let ghost labels = fixture_labels(fixtures@);
    let ghost mut outcomes: Seq<Seq<Seq<char>>> = Seq::empty();
    let mut tally = Tally::new();
    let mut i: usize = 0;
    while i < fixtures.len()
        invariant
            i <= fixtures@.len(),
            cartridges@.len() == fixtures@.len(),
            labels == fixture_labels(fixtures@),
            outcomes.len() == i,
            forall|j: int| 0 <= j < i ==> possible_outcome(fixtures@[j], cartridges@[j], *assets, *trig, ipl_view(ipl), #[trigger] outcomes[j]),
            tally.passed == passed_count(outcomes),
            failures_text(tally.failures@) == retained(labels, outcomes, max_failures as nat),
        decreases fixtures@.len() - i,
    {
        let label = fixtures[i].name.clone();
        let reasons = evaluate_fixture(&fixtures[i], &cartridges[i], assets, trig, ipl);
        let ghost o = reasons.deep_view();
        tally.record(label, reasons, max_failures, Ghost(labels), Ghost(outcomes));
        proof {
            outcomes = outcomes.push(o);
        }
        i = i + 1;
    }
    let summary = tally.finish("ROM regression".to_owned(), fixtures.len(), Ghost(labels), Ghost(outcomes), max_failures);
    proof {
        lemma_report_counts(summary, labels, outcomes, max_failures as nat);
    }
    summary
}

} // verus!
