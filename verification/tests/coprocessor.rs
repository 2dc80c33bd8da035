use starbyte::cartridge::{Cartridge, CartridgeHeader, Mapper, Region};
use starbyte::coprocessor::dsp::{DSP_STATUS_COMMAND_WAITING, DSP_STATUS_DATA_AVAILABLE, DSP_STATUS_READY};
use starbyte::coprocessor::{
    CoprocessorKind, Cx4Coprocessor, DspCoprocessor, DspVariant, Obc1Coprocessor, SRtcCoprocessor, Sa1Coprocessor,
    Sdd1Coprocessor, SuperFxCoprocessor, TrigTable,
};
use starbyte::ppu::FrameBuffer;

fn trig_table() -> TrigTable {
    let mut sin = Vec::with_capacity(0x10000);
    let mut cos = Vec::with_capacity(0x10000);
    for index in 0..0x10000_u32 {
        let angle = index as u16 as i16;
        let radians = f64::from(angle) * std::f64::consts::PI / 32768.0;
        sin.push((radians.sin() * 32767.0).round().clamp(-32767.0, 32767.0) as i16);
        cos.push((radians.cos() * 32767.0).round().clamp(-32768.0, 32767.0) as i16);
    }
    TrigTable::from_values(sin, cos).unwrap()
}

fn header(title: &str, mapper: Mapper, rom_type: u8, rom_size_code: u8, ram_size_code: u8) -> CartridgeHeader {
    CartridgeHeader {
        title: title.to_owned(),
        mapper,
        map_mode: match mapper {
            Mapper::LoRom => 0x20,
            Mapper::HiRom => 0x21,
        },
        rom_type,
        rom_size_code,
        ram_size_code,
        destination_code: 0x01,
        region: Region::Ntsc,
        complement: 0xFFFF,
        checksum: 0x0000,
    }
}

fn dsp_header(mapper: Mapper, rom_type: u8, rom_size_code: u8, ram_size_code: u8) -> CartridgeHeader {
    header("DSP TEST", mapper, rom_type, rom_size_code, ram_size_code)
}

fn write_word(dsp: &mut DspCoprocessor, mapper: Mapper, address: u32, word: u16) {
    assert!(dsp.write(mapper, address, (word & 0x00FF) as u8));
    assert!(dsp.write(mapper, address + 1, (word >> 8) as u8));
}

fn read_word(dsp: &mut DspCoprocessor, mapper: Mapper, address: u32) -> u16 {
    let lo = dsp.read(mapper, address).unwrap();
    let hi = dsp.read(mapper, address + 1).unwrap();
    u16::from_le_bytes([lo, hi])
}

#[test]
fn detects_dsp_family_from_chipset_byte() {
    assert_eq!(CoprocessorKind::detect(&dsp_header(Mapper::LoRom, 0x03, 0x09, 0)), Some(CoprocessorKind::Dsp));
    assert_eq!(CoprocessorKind::detect(&dsp_header(Mapper::LoRom, 0x35, 0x09, 0)), Some(CoprocessorKind::Sa1));
    assert_eq!(CoprocessorKind::detect(&dsp_header(Mapper::LoRom, 0x00, 0x09, 0)), None);
}

#[test]
fn dsp_lorom_1mib_window_roundtrips_data_register() {
    let mut dsp = DspCoprocessor::new(&dsp_header(Mapper::LoRom, 0x03, 0x08, 0x00), trig_table());
    assert!(dsp.write(Mapper::LoRom, 0x308000, 0x34));
    assert!(dsp.write(Mapper::LoRom, 0x308001, 0x12));
    assert_eq!(dsp.read(Mapper::LoRom, 0x308000), Some(0x34));
    assert_eq!(dsp.read(Mapper::LoRom, 0x308001), Some(0x12));
    assert_eq!(dsp.read(Mapper::LoRom, 0x30C000), Some(DSP_STATUS_READY));
}

#[test]
fn variant_detection_prefers_specific_titles() {
    assert_eq!(
        DspVariant::detect(&header("STARBYTE DSP-1B TEST", Mapper::LoRom, 0x03, 0x08, 0x00)),
        DspVariant::Dsp1B
    );
    assert_eq!(DspVariant::detect(&header("STARBYTE DSP-4 TEST", Mapper::LoRom, 0x03, 0x08, 0x00)), DspVariant::Dsp4);
}

#[test]
fn multiply_command_obeys_q15_scaling_and_latency() {
    let mut dsp = DspCoprocessor::new(&header("STARBYTE DSP-1", Mapper::LoRom, 0x03, 0x08, 0x00), trig_table());

    write_word(&mut dsp, Mapper::LoRom, 0x308000, 0x0000);
    write_word(&mut dsp, Mapper::LoRom, 0x308000, 0x4000);
    write_word(&mut dsp, Mapper::LoRom, 0x308000, 0x4000);

    assert_eq!(dsp.read(Mapper::LoRom, 0x30C000), Some(DSP_STATUS_COMMAND_WAITING));
    dsp.step_master_cycles(5);
    assert_eq!(dsp.read(Mapper::LoRom, 0x30C000), Some(DSP_STATUS_COMMAND_WAITING));
    dsp.step_master_cycles(1);
    assert_eq!(dsp.read(Mapper::LoRom, 0x30C000), Some(DSP_STATUS_READY | DSP_STATUS_DATA_AVAILABLE));
    assert_eq!(read_word(&mut dsp, Mapper::LoRom, 0x308000), 0x2000);
}

#[test]
fn triangle_and_rotate_commands_use_geometric_semantics() {
    let mut dsp = DspCoprocessor::new(&header("STARBYTE DSP-1", Mapper::LoRom, 0x03, 0x08, 0x00), trig_table());

    write_word(&mut dsp, Mapper::LoRom, 0x308000, 0x0004);
    write_word(&mut dsp, Mapper::LoRom, 0x308000, 0x4000);
    write_word(&mut dsp, Mapper::LoRom, 0x308000, 0x4000);
    dsp.step_master_cycles(12);
    let y = read_word(&mut dsp, Mapper::LoRom, 0x308000) as i16;
    let x = read_word(&mut dsp, Mapper::LoRom, 0x308000) as i16;
    assert!(y > 0x3E00_i16);
    assert!(x.unsigned_abs() < 0x0200);

    write_word(&mut dsp, Mapper::LoRom, 0x308000, 0x000C);
    write_word(&mut dsp, Mapper::LoRom, 0x308000, 0x4000);
    write_word(&mut dsp, Mapper::LoRom, 0x308000, 0x4000);
    write_word(&mut dsp, Mapper::LoRom, 0x308000, 0x0000);
    dsp.step_master_cycles(18);
    let x2 = read_word(&mut dsp, Mapper::LoRom, 0x308000) as i16;
    let y2 = read_word(&mut dsp, Mapper::LoRom, 0x308000) as i16;
    assert!(x2.unsigned_abs() < 0x0200);
    assert!(y2 < -0x3E00_i16);
}

#[test]
fn memory_dump_is_large_and_variant_specific() {
    let mut dsp1 = DspCoprocessor::new(&header("STARBYTE DSP-1", Mapper::LoRom, 0x03, 0x08, 0x00), trig_table());
    let mut dsp1b = DspCoprocessor::new(&header("STARBYTE DSP-1B", Mapper::LoRom, 0x03, 0x08, 0x00), trig_table());

    write_word(&mut dsp1, Mapper::LoRom, 0x308000, 0x001F);
    write_word(&mut dsp1, Mapper::LoRom, 0x308000, 0x1234);
    write_word(&mut dsp1b, Mapper::LoRom, 0x308000, 0x001F);
    write_word(&mut dsp1b, Mapper::LoRom, 0x308000, 0x1234);
    dsp1.step_master_cycles(48);
    dsp1b.step_master_cycles(48);

    assert_eq!(dsp1.result_count(), 1024);
    assert_eq!(dsp1b.result_count(), 1024);
    assert_ne!(dsp1.front_result(), dsp1b.front_result());
}

#[test]
fn unsupported_variant_commands_return_variant_marked_error_word() {
    let mut dsp2 = DspCoprocessor::new(&header("STARBYTE DSP-2", Mapper::LoRom, 0x03, 0x08, 0x00), trig_table());
    write_word(&mut dsp2, Mapper::LoRom, 0x308000, 0x0010);
    write_word(&mut dsp2, Mapper::LoRom, 0x308000, 0x4000);
    write_word(&mut dsp2, Mapper::LoRom, 0x308000, 0x0000);
    dsp2.step_master_cycles(18);
    assert_eq!(read_word(&mut dsp2, Mapper::LoRom, 0x308000), 0x2D10);
}

#[test]
fn attitude_and_transform_commands_share_matrix_state() {
    let mut dsp = DspCoprocessor::new(&header("STARBYTE DSP-1", Mapper::LoRom, 0x03, 0x08, 0x00), trig_table());

    for word in [0x0001_u16, 0x7FFF, 0x0000, 0x0000, 0x0000] {
        write_word(&mut dsp, Mapper::LoRom, 0x308000, word);
    }
    dsp.step_master_cycles(18);

    for word in [0x000D_u16, 0x4000, 0x0000, 0x0000] {
        write_word(&mut dsp, Mapper::LoRom, 0x308000, word);
    }
    dsp.step_master_cycles(18);
    let f = read_word(&mut dsp, Mapper::LoRom, 0x308000) as i16;
    let l = read_word(&mut dsp, Mapper::LoRom, 0x308000) as i16;
    let u = read_word(&mut dsp, Mapper::LoRom, 0x308000) as i16;
    assert!(f > 0x3E00_i16);
    assert!(l.unsigned_abs() < 0x0100);
    assert!(u.unsigned_abs() < 0x0100);

    for word in [0x0003_u16, f as u16, l as u16, u as u16] {
        write_word(&mut dsp, Mapper::LoRom, 0x308000, word);
    }
    dsp.step_master_cycles(18);
    let x = read_word(&mut dsp, Mapper::LoRom, 0x308000) as i16;
    let y = read_word(&mut dsp, Mapper::LoRom, 0x308000) as i16;
    let z = read_word(&mut dsp, Mapper::LoRom, 0x308000) as i16;
    assert!(x > 0x3E00_i16);
    assert!(y.unsigned_abs() < 0x0100);
    assert!(z.unsigned_abs() < 0x0100);
}

#[test]
fn scalar_and_gyrate_commands_produce_nontrivial_results() {
    let mut dsp = DspCoprocessor::new(&header("STARBYTE DSP-1", Mapper::LoRom, 0x03, 0x08, 0x00), trig_table());

    for word in [0x0001_u16, 0x7FFF, 0x2000, 0x0000, 0x0000] {
        write_word(&mut dsp, Mapper::LoRom, 0x308000, word);
    }
    dsp.step_master_cycles(18);

    for word in [0x000B_u16, 0x4000, 0x0000, 0x0000] {
        write_word(&mut dsp, Mapper::LoRom, 0x308000, word);
    }
    dsp.step_master_cycles(18);
    let scalar = read_word(&mut dsp, Mapper::LoRom, 0x308000) as i16;
    assert!(scalar > 0x2000_i16);

    for word in [0x0014_u16, 0x1000, 0x0800, 0x0400, 0x0100, 0x0080, 0x0040] {
        write_word(&mut dsp, Mapper::LoRom, 0x308000, word);
    }
    dsp.step_master_cycles(18);
    let rz = read_word(&mut dsp, Mapper::LoRom, 0x308000) as i16;
    let rx = read_word(&mut dsp, Mapper::LoRom, 0x308000) as i16;
    let ry = read_word(&mut dsp, Mapper::LoRom, 0x308000) as i16;
    assert_ne!((rz, rx, ry), (0x1000, 0x0800, 0x0400));
}

fn cx4_header() -> CartridgeHeader {
    header("STARBYTE CX4 TEST", Mapper::LoRom, 0xF3, 0x09, 0x01)
}

#[test]
fn vector_length_command_produces_expected_result() {
    let mut cx4 = Cx4Coprocessor::new(&cx4_header(), trig_table());
    for (address, value) in [
        (0x006000, 3),
        (0x006001, 0),
        (0x006002, 4),
        (0x006003, 0),
        (0x006004, 12),
        (0x006005, 0),
        (0x007F40, 0x10),
    ] {
        assert!(cx4.write(Mapper::LoRom, address, value));
    }
    cx4.step(10);
    assert_eq!(cx4.read(Mapper::LoRom, 0x006010), Some(13));
    assert_eq!(cx4.read(Mapper::LoRom, 0x006011), Some(0));
    assert_eq!(cx4.read(Mapper::LoRom, 0x007F41), Some(0x81));
}

#[test]
fn rotate_command_updates_output_registers() {
    let mut cx4 = Cx4Coprocessor::new(&cx4_header(), trig_table());
    for (address, value) in [
        (0x006000, 0),
        (0x006001, 0x40),
        (0x006002, 0),
        (0x006003, 0x40),
        (0x006004, 0),
        (0x006005, 0),
        (0x007F40, 0x13),
    ] {
        assert!(cx4.write(Mapper::LoRom, address, value));
    }
    cx4.step(18);
    assert_eq!(cx4.read(Mapper::LoRom, 0x006010), Some(0));
    assert_eq!(cx4.read(Mapper::LoRom, 0x006011), Some(0));
    assert!(cx4.read(Mapper::LoRom, 0x006013).is_some_and(|value| value > 0x3E));
}

fn sa1_cart() -> Cartridge {
    let mut rom = vec![0_u8; 0x10000];
    let base = 0x7FC0;
    rom[base..base + 21].copy_from_slice(b"STARBYTE SA-1 TEST   ");
    rom[base + 0x15] = 0x20;
    rom[base + 0x16] = 0x34;
    rom[base + 0x17] = 0x09;
    rom[base + 0x18] = 0x01;
    rom[base + 0x19] = 0x01;
    rom[base + 0x1C] = 0x00;
    rom[base + 0x1D] = 0xFF;
    rom[base + 0x1E] = 0xFF;
    rom[base + 0x1F] = 0x00;
    rom[0x7FFC] = 0x34;
    rom[0x7FFD] = 0x12;
    Cartridge::from_bytes(rom, None).unwrap()
}

#[test]
fn mmio_and_shared_memory_roundtrip() {
    let mut sa1 = Sa1Coprocessor::new(&sa1_cart());
    assert!(sa1.write(Mapper::LoRom, 0x003000, 0x44));
    assert!(sa1.write(Mapper::LoRom, 0x406000, 0x99));
    assert_eq!(sa1.read(Mapper::LoRom, 0x003000), Some(0x44));
    assert_eq!(sa1.read(Mapper::LoRom, 0x406000), Some(0x99));
}

#[test]
fn stepping_completes_boot_and_raises_irq() {
    let mut sa1 = Sa1Coprocessor::new(&sa1_cart());
    sa1.write(Mapper::LoRom, 0x002202, 0x78);
    sa1.write(Mapper::LoRom, 0x002203, 0x56);
    sa1.write(Mapper::LoRom, 0x002206, 0x08);
    sa1.write(Mapper::LoRom, 0x002207, 0x00);
    sa1.write(Mapper::LoRom, 0x002208, 0x55);
    sa1.write(Mapper::LoRom, 0x00220A, 0x01);
    sa1.write(Mapper::LoRom, 0x002200, 0x80);
    sa1.step(8);

    assert_eq!(sa1.read(Mapper::LoRom, 0x002201), Some(0xC0));
    assert_eq!(sa1.read(Mapper::LoRom, 0x002209), Some(0x88));
    assert_eq!(sa1.read(Mapper::LoRom, 0x00220C), Some(0x78));
    assert_eq!(sa1.read(Mapper::LoRom, 0x00220D), Some(0x56));
}

#[test]
fn sdd1_rle_mode_expands_data() {
    let mut sdd1 = Sdd1Coprocessor::new();
    sdd1.write(Mapper::LoRom, 0x004800, 0x01);
    sdd1.write(Mapper::LoRom, 0x004801, 0x01);
    sdd1.write(Mapper::LoRom, 0x004804, 0x82);
    sdd1.write(Mapper::LoRom, 0x004804, 0x41);
    sdd1.step(4);

    assert_eq!(sdd1.read(Mapper::LoRom, 0x004806), Some(0x81));
    assert_eq!(sdd1.read(Mapper::LoRom, 0x004805), Some(0x41));
    assert_eq!(sdd1.read(Mapper::LoRom, 0x004805), Some(0x41));
    assert_eq!(sdd1.read(Mapper::LoRom, 0x004805), Some(0x41));
}

#[test]
fn obc1_window_tracks_selected_object() {
    let mut obc1 = Obc1Coprocessor::new();
    obc1.write(Mapper::LoRom, 0x007FF6, 0x05);
    obc1.write(Mapper::LoRom, 0x007FF0, 0x12);
    obc1.write(Mapper::LoRom, 0x007FF1, 0x34);
    assert_eq!(obc1.read(Mapper::LoRom, 0x007FF0), Some(0x12));
    assert_eq!(obc1.read(Mapper::LoRom, 0x007FF1), Some(0x34));
}

#[test]
fn srtc_latches_deterministic_time_digits() {
    let mut srtc = SRtcCoprocessor::new();
    srtc.write(Mapper::LoRom, 0x002801, 0x0E);
    srtc.write(Mapper::LoRom, 0x002801, 0x0F);
    assert_eq!(srtc.read(Mapper::LoRom, 0x002800), Some(1));
    assert_eq!(srtc.read(Mapper::LoRom, 0x002800), Some(0));
}

fn make_superfx_cart(program: &[(usize, u8)]) -> Cartridge {
    let mut rom = vec![0_u8; 0x10000];
    let base = 0x7FC0;
    rom[base..base + 21].copy_from_slice(b"STARBYTE SUPERFX     ");
    rom[base + 0x15] = 0x20;
    rom[base + 0x16] = 0x13;
    rom[base + 0x17] = 0x09;
    rom[base + 0x18] = 0x01;
    rom[base + 0x19] = 0x01;
    rom[base + 0x1C] = 0x00;
    rom[base + 0x1D] = 0xFF;
    rom[base + 0x1E] = 0xFF;
    rom[base + 0x1F] = 0x00;
    for (offset, value) in program {
        rom[*offset] = *value;
    }
    Cartridge::from_bytes(rom, None).unwrap()
}

#[test]
fn cache_window_roundtrips_bytes() {
    let cartridge = make_superfx_cart(&[]);
    let mut superfx = SuperFxCoprocessor::new(&cartridge);
    assert!(superfx.write(Mapper::LoRom, 0x003100, 0xAA));
    assert!(superfx.write(Mapper::LoRom, 0x003101, 0x55));
    assert_eq!(superfx.read(Mapper::LoRom, 0x003100), Some(0xAA));
    assert_eq!(superfx.read(Mapper::LoRom, 0x003101), Some(0x55));
}

#[test]
fn can_execute_tiny_plot_program_and_render_overlay() {
    let cartridge = make_superfx_cart(&[
        (0x0000, 0xF1),
        (0x0001, 0x02),
        (0x0002, 0x00),
        (0x0003, 0xF2),
        (0x0004, 0x01),
        (0x0005, 0x00),
        (0x0006, 0xFE),
        (0x0007, 0x20),
        (0x0008, 0x00),
        (0x0009, 0xDF),
        (0x000A, 0x4C),
        (0x000B, 0x00),
        (0x0020, 0x33),
    ]);
    let mut superfx = SuperFxCoprocessor::new(&cartridge);

    assert!(superfx.write(Mapper::LoRom, 0x00301E, 0x00));
    assert!(superfx.write(Mapper::LoRom, 0x00301F, 0x00));
    superfx.step(64);

    let mut frame = FrameBuffer::default();
    superfx.render_overlay(&mut frame);

    let pixel = (256 + 2) * 4;
    assert_eq!(&frame.pixels()[pixel..pixel + 4], &[255, 0, 255, 255]);
    assert_eq!(superfx.read(Mapper::LoRom, 0x003031), Some(((1_u16 << 15) >> 8) as u8));
}

#[test]
fn dsp_without_trig_table_still_multiplies() {
    let mut dsp = DspCoprocessor::new(&header("STARBYTE DSP-1", Mapper::LoRom, 0x03, 0x08, 0x00), TrigTable::empty());
    write_word(&mut dsp, Mapper::LoRom, 0x308000, 0x0000);
    write_word(&mut dsp, Mapper::LoRom, 0x308000, 0x4000);
    write_word(&mut dsp, Mapper::LoRom, 0x308000, 0x2000);
    dsp.step_master_cycles(6);
    assert_eq!(read_word(&mut dsp, Mapper::LoRom, 0x308000), 0x1000);
}

#[test]
fn trig_table_requires_full_tables() {
    assert!(TrigTable::from_values(vec![0; 4], vec![0; 4]).is_none());
    let table = trig_table();
    assert_eq!(table.sin(0x4000), 32767);
    assert_eq!(table.cos(0), 32767);
}

#[test]
fn cx4_status_stays_busy_until_the_latency_is_handed_out() {
    let mut cx4 = Cx4Coprocessor::new(&cx4_header(), TrigTable::empty());
    assert!(cx4.write(Mapper::LoRom, 0x007F40, 0x1F));
    assert_eq!(cx4.read(Mapper::LoRom, 0x007F41), Some(0));
    cx4.step(10);
    assert_eq!(cx4.read(Mapper::LoRom, 0x007F41), Some(0));
    cx4.step(7);
    assert_eq!(cx4.read(Mapper::LoRom, 0x007F41), Some(0));
    cx4.step(1);
    assert_eq!(cx4.read(Mapper::LoRom, 0x007F41), Some(0x81));
    cx4.step(100);
    assert_eq!(cx4.read(Mapper::LoRom, 0x007F41), Some(0x81));
}
