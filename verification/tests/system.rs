use starbyte::bus::Bus;
use starbyte::cartridge::{Cartridge, Mapper};
use starbyte::coprocessor::{Coprocessor, CoprocessorKind};
use starbyte::error::Error;
use starbyte::input::ControllerState;
use starbyte::ppu::FrameBuffer;
use starbyte::system::SystemBus;
use starbyte::timing::{DOTS_PER_SCANLINE, NTSC_SCANLINES_PER_FRAME, VBLANK_START_SCANLINE};

fn make_cart(mapper: Mapper) -> Cartridge {
    make_cart_with_rom_type(mapper, 0x00)
}

fn make_cart_with_rom_type(mapper: Mapper, rom_type: u8) -> Cartridge {
    make_cart_with_title_and_rom_type(mapper, rom_type, b"STARBYTE SYSTEM BUS  ")
}

fn make_cart_with_title_and_rom_type(mapper: Mapper, rom_type: u8, title: &[u8; 21]) -> Cartridge {
    let mut rom = match mapper {
        Mapper::LoRom => vec![0_u8; 0x10000],
        Mapper::HiRom => vec![0_u8; 0x20000],
    };
    let base = match mapper {
        Mapper::LoRom => 0x7FC0,
        Mapper::HiRom => 0xFFC0,
    };
    rom[base..base + 21].copy_from_slice(title);
    rom[base + 0x15] = match mapper {
        Mapper::LoRom => 0x20,
        Mapper::HiRom => 0x21,
    };
    rom[base + 0x16] = rom_type;
    rom[base + 0x17] = if matches!(mapper, Mapper::HiRom) { 0x0A } else { 0x09 };
    rom[base + 0x18] = 0x01;
    rom[base + 0x19] = 0x01;
    rom[base + 0x1C] = 0x00;
    rom[base + 0x1D] = 0xFF;
    rom[base + 0x1E] = 0xFF;
    rom[base + 0x1F] = 0x00;
    Cartridge::from_bytes(rom, None).unwrap()
}

fn make_dsp_cart(mapper: Mapper) -> Cartridge {
    let mut rom = make_cart(mapper).rom().to_vec();
    let base = match mapper {
        Mapper::LoRom => 0x7FC0,
        Mapper::HiRom => 0xFFC0,
    };
    rom[base + 0x16] = 0x03;
    if matches!(mapper, Mapper::LoRom) {
        rom[base + 0x17] = 0x08;
        rom[base + 0x18] = 0x00;
    }
    Cartridge::from_bytes(rom, None).unwrap()
}

#[test]
fn mirrors_low_wram_into_system_banks() {
    let mut bus = SystemBus::default();
    bus.write(0x000123, 0xAB);

    assert_eq!(bus.read(0x7E0123), 0xAB);
    assert_eq!(bus.read(0x800123), 0xAB);
}

#[test]
fn preserves_open_bus_on_unmapped_reads() {
    let mut bus = SystemBus::default();
    bus.install_cartridge(make_cart(Mapper::LoRom));
    bus.write(0x7E0010, 0x5A);

    assert_eq!(bus.read(0x006000), 0x5A);
}

#[test]
fn maps_lorom_save_ram_reads_and_writes() {
    let mut bus = SystemBus::default();
    bus.install_cartridge(make_cart(Mapper::LoRom));
    bus.write(0x700010, 0xA5);
    bus.write(0xF00020, 0x5A);

    assert_eq!(bus.read(0x700010), 0xA5);
    assert_eq!(bus.read(0xF00020), 0x5A);
    assert!(!bus.save_ram().is_empty());
}

#[test]
fn maps_hirom_save_ram_reads_and_writes() {
    let mut bus = SystemBus::default();
    bus.install_cartridge(make_cart(Mapper::HiRom));
    bus.write(0x206000, 0x11);
    bus.write(0xA06001, 0x22);

    assert_eq!(bus.read(0x206000), 0x11);
    assert_eq!(bus.read(0xA06001), 0x22);
    assert!(!bus.save_ram().is_empty());
}

#[test]
fn routes_dsp_register_reads_and_writes_before_rom() {
    let mut bus = SystemBus::default();
    bus.install_cartridge(make_dsp_cart(Mapper::LoRom));

    bus.write(0x308000, 0x78);
    bus.write(0x308001, 0x56);

    assert_eq!(bus.read(0x308000), 0x78);
    assert_eq!(bus.read(0x308001), 0x56);
    assert_eq!(bus.read(0x30C000), 0x80);
    assert!(matches!(bus.coprocessor().map(Coprocessor::kind), Some(CoprocessorKind::Dsp)));
}

#[test]
fn routes_superfx_register_reads_and_writes_before_rom() {
    let mut bus = SystemBus::default();
    bus.install_cartridge(make_cart_with_rom_type(Mapper::LoRom, 0x13));

    bus.write(0x003000, 0x78);
    bus.write(0x003001, 0x56);
    bus.write(0x003030, 0x01);
    bus.write(0x003031, 0x80);
    bus.write(0x003034, 0x12);
    bus.write(0x00303E, 0x34);
    bus.write(0x00303F, 0x12);

    assert_eq!(bus.read(0x003000), 0x78);
    assert_eq!(bus.read(0x003001), 0x56);
    assert_eq!(bus.read(0x003030), 0x01);
    assert_eq!(bus.read(0x003031), 0x80);
    assert_eq!(bus.read(0x003034), 0x12);
    assert_eq!(bus.read(0x00303E), 0x34);
    assert_eq!(bus.read(0x00303F), 0x12);
    assert!(matches!(bus.coprocessor().map(Coprocessor::kind), Some(CoprocessorKind::SuperFx)));
}

#[test]
fn routes_sa1_mmio_and_shared_ram_before_rom() {
    let mut bus = SystemBus::default();
    bus.install_cartridge(make_cart_with_rom_type(Mapper::LoRom, 0x34));

    bus.write(0x002202, 0x78);
    bus.write(0x002203, 0x56);
    bus.write(0x002206, 0x08);
    bus.write(0x002208, 0x55);
    bus.write(0x00220A, 0x01);
    bus.write(0x002200, 0x80);
    bus.write(0x003000, 0xAA);
    bus.write(0x406000, 0xCC);
    bus.advance_master_clocks(8);

    assert_eq!(bus.read(0x002201), 0xC0);
    assert_eq!(bus.read(0x002209), 0x88);
    assert_eq!(bus.read(0x003000), 0xAA);
    assert_eq!(bus.read(0x406000), 0xCC);
    assert!(matches!(bus.coprocessor().map(Coprocessor::kind), Some(CoprocessorKind::Sa1)));
}

#[test]
fn routes_cx4_command_window_before_rom() {
    let mut bus = SystemBus::default();
    bus.install_cartridge(make_cart_with_title_and_rom_type(Mapper::LoRom, 0xF3, b"STARBYTE CX4 TEST    "));

    for (address, value) in [
        (0x006000, 3),
        (0x006001, 0),
        (0x006002, 4),
        (0x006003, 0),
        (0x006004, 12),
        (0x006005, 0),
        (0x007F40, 0x10),
    ] {
        bus.write(address, value);
    }
    bus.advance_master_clocks(10);

    assert_eq!(bus.read(0x006010), 13);
    assert_eq!(bus.read(0x006011), 0);
    assert_eq!(bus.read(0x007F41), 0x81);
    assert!(matches!(bus.coprocessor().map(Coprocessor::kind), Some(CoprocessorKind::Cx4)));
}

#[test]
fn routes_secondary_chip_register_windows_before_rom() {
    let mut sdd1 = SystemBus::default();
    sdd1.install_cartridge(make_cart_with_rom_type(Mapper::LoRom, 0x43));
    sdd1.write(0x004800, 0x01);
    sdd1.write(0x004801, 0x01);
    sdd1.write(0x004804, 0x82);
    sdd1.write(0x004804, 0x41);
    sdd1.advance_master_clocks(4);
    assert_eq!(sdd1.read(0x004806), 0x81);
    assert_eq!(sdd1.read(0x004805), 0x41);

    let mut obc1 = SystemBus::default();
    obc1.install_cartridge(make_cart_with_rom_type(Mapper::LoRom, 0x23));
    obc1.write(0x007FF6, 0x05);
    obc1.write(0x007FF0, 0x12);
    assert_eq!(obc1.read(0x007FF0), 0x12);

    let mut srtc = SystemBus::default();
    srtc.install_cartridge(make_cart_with_rom_type(Mapper::LoRom, 0x53));
    srtc.write(0x002801, 0x0E);
    srtc.write(0x002801, 0x0F);
    assert_eq!(srtc.read(0x002800), 0x01);
    assert!(matches!(srtc.coprocessor().map(Coprocessor::kind), Some(CoprocessorKind::SRtc)));
}

#[test]
fn dsp_bus_path_supports_buffered_command_execution() {
    let mut bus = SystemBus::default();
    bus.install_cartridge(make_dsp_cart(Mapper::LoRom));

    for word in [0x0000_u16, 0x4000, 0x4000] {
        bus.write(0x308000, (word & 0x00FF) as u8);
        bus.write(0x308001, (word >> 8) as u8);
    }

    assert_eq!(bus.read(0x30C000), 0x20);
    bus.advance_master_clocks(6);
    assert_eq!(bus.read(0x30C000), 0xC0);
    assert_eq!(bus.read(0x308000), 0x00);
    assert_eq!(bus.read(0x308001), 0x20);
    assert_eq!(bus.read(0x30C000), 0x80);
}

#[test]
fn validates_external_save_ram_size() {
    let mut bus = SystemBus::default();
    bus.install_cartridge(make_cart(Mapper::LoRom));

    let error = bus.load_save_ram(&[0xAA]).unwrap_err();
    assert!(matches!(error, Error::InvalidSaveRam { expected: _, actual: 1 }));
}

#[test]
fn latches_joypad_state_into_parallel_and_serial_registers() {
    let mut bus = SystemBus::default();
    bus.set_controller1(ControllerState { b: true, start: true, a: true, ..ControllerState::default() });

    bus.write(0x004016, 0x01);
    bus.write(0x004016, 0x00);

    assert_eq!(bus.read(0x004218), 0x09);
    assert_eq!(bus.read(0x004219), 0x01);
    assert_eq!(bus.read(0x004016) & 0x01, 1);
    assert_eq!(bus.read(0x004016) & 0x01, 0);
    assert_eq!(bus.read(0x004016) & 0x01, 0);
    assert_eq!(bus.read(0x004016) & 0x01, 1);
}

#[test]
fn exposes_dma_register_image() {
    let mut bus = SystemBus::default();
    bus.write(0x004300, 0x8F);
    bus.write(0x00430A, 0x55);

    assert_eq!(bus.read(0x004300), 0x8F);
    assert_eq!(bus.read(0x00430A), 0x55);
}

#[test]
fn dma_can_stream_bytes_into_ppu_cgram() {
    let mut bus = SystemBus::default();
    bus.install_cartridge(make_cart(Mapper::LoRom));
    bus.write(0x7E0000, 0x1F);
    bus.write(0x7E0001, 0x00);
    bus.write(0x002121, 0x00);
    bus.write(0x004300, 0x02);
    bus.write(0x004301, 0x22);
    bus.write(0x004302, 0x00);
    bus.write(0x004303, 0x00);
    bus.write(0x004304, 0x7E);
    bus.write(0x004305, 0x02);
    bus.write(0x004306, 0x00);
    bus.write(0x00420B, 0x01);

    assert_eq!(&bus.ppu().cgram()[..2], &[0x1F, 0x00]);
}

#[test]
fn hdma_applies_one_line_of_direct_data() {
    let mut bus = SystemBus::default();
    bus.install_cartridge(make_cart(Mapper::LoRom));
    bus.write(0x002121, 0x00);
    bus.write(0x7E0100, 0x01);
    bus.write(0x7E0101, 0x00);
    bus.write(0x7E0102, 0x7C);
    bus.write(0x7E0103, 0x00);
    bus.write(0x004300, 0x02);
    bus.write(0x004301, 0x22);
    bus.write(0x004302, 0x00);
    bus.write(0x004303, 0x01);
    bus.write(0x004304, 0x7E);
    bus.write(0x00420C, 0x01);
    bus.advance_master_clocks(u64::from(DOTS_PER_SCANLINE));

    assert_eq!(&bus.ppu().cgram()[..2], &[0x00, 0x7C]);
}

#[test]
fn raises_nmi_and_irq_from_timing_progression() {
    let mut bus = SystemBus::default();
    bus.write(0x004200, 0x90);

    bus.advance_master_clocks(u64::from(DOTS_PER_SCANLINE));
    assert_eq!(bus.read(0x004211) & 0x80, 0x80);
    assert_eq!(bus.read(0x004211) & 0x80, 0x00);

    let clocks_to_vblank = u64::from(DOTS_PER_SCANLINE) * u64::from(VBLANK_START_SCANLINE - 1);
    bus.advance_master_clocks(clocks_to_vblank);
    assert!(bus.timing().in_vblank());
    assert_eq!(bus.read(0x004210) & 0x80, 0x80);
    assert_eq!(bus.read(0x004210) & 0x80, 0x00);
}

#[test]
fn wraps_frames_through_explicit_timing() {
    let mut bus = SystemBus::default();
    let frame_clocks = u64::from(DOTS_PER_SCANLINE) * u64::from(NTSC_SCANLINES_PER_FRAME);
    bus.advance_master_clocks(frame_clocks);

    assert_eq!(bus.timing().frame, 1);
    assert_eq!(bus.timing().scanline, 0);
    assert_eq!(bus.timing().dot, 0);
}

#[test]
fn ppu_register_writes_drive_rendered_frame() {
    let mut bus = SystemBus::default();
    let mut frame = FrameBuffer::default();
    bus.write(0x002121, 0x00);
    bus.write(0x002122, 0x00);
    bus.write(0x002122, 0x7C);
    bus.write(0x00212C, 0x01);
    bus.render_frame(&mut frame);

    assert_eq!(&frame.pixels()[..4], &[248, 0, 0, 0xFF]);
}

#[test]
fn wram_write_then_read_law_holds_across_mirrors() {
    let mut bus = SystemBus::default();
    bus.write(0x7F1234, 0x42);
    assert_eq!(bus.read(0x7F1234), 0x42);
    bus.write(0x801FFF, 0x17);
    assert_eq!(bus.read(0x7E1FFF), 0x17);
}

#[test]
fn save_ram_installs_only_with_matching_length() {
    let mut bus = SystemBus::default();
    bus.install_cartridge(make_cart(Mapper::LoRom));
    let len = bus.save_ram_len().unwrap();
    bus.load_save_ram(&vec![0x33; len]).unwrap();
    assert_eq!(bus.read(0x700000), 0x33);
    assert!(bus.reset_vector().is_some());
}

#[test]
fn reset_restores_ppu_dma_and_the_installed_chip() {
    let mut bus = SystemBus::default();
    bus.install_cartridge(make_cart_with_title_and_rom_type(Mapper::LoRom, 0xF3, b"STARBYTE CX4 TEST    "));
    bus.write(0x002121, 0x00);
    bus.write(0x002122, 0x1F);
    bus.write(0x004300, 0x8F);
    bus.write(0x006000, 7);
    bus.write(0x007F40, 0x10);
    assert_eq!(bus.read(0x007F41), 0x00);

    bus.reset();

    assert!(bus.ppu().cgram().iter().all(|b| *b == 0));
    assert_eq!(bus.read(0x004300), 0x00);
    assert_eq!(bus.read(0x006000), 0);
    assert_eq!(bus.read(0x007F41), 0x80);
    assert!(matches!(bus.coprocessor().map(Coprocessor::kind), Some(CoprocessorKind::Cx4)));
}
