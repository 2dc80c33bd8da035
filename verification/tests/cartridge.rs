use starbyte::cartridge::{Cartridge, Mapper};
use starbyte::coprocessor::CoprocessorKind;

fn make_header(mapper: Mapper) -> Vec<u8> {
    let base = match mapper {
        Mapper::LoRom => 0x7FC0,
        Mapper::HiRom => 0xFFC0,
    };
    let mut rom = vec![0_u8; 0x10000];
    let title = b"STARBYTE TEST        ";
    rom[base..base + 21].copy_from_slice(title);
    rom[base + 0x15] = match mapper {
        Mapper::LoRom => 0x20,
        Mapper::HiRom => 0x21,
    };
    rom[base + 0x16] = 0x00;
    rom[base + 0x17] = 0x09;
    rom[base + 0x18] = 0x03;
    rom[base + 0x19] = 0x01;
    rom[base + 0x1A] = 0x33;
    rom[base + 0x1B] = 0x00;
    rom[base + 0x1C] = 0x00;
    rom[base + 0x1D] = 0xFF;
    rom[base + 0x1E] = 0xFF;
    rom[base + 0x1F] = 0x00;
    rom
}

#[test]
fn detects_lorom_header() {
    let cart = Cartridge::from_bytes(make_header(Mapper::LoRom), None).unwrap();
    assert_eq!(cart.mapper(), Mapper::LoRom);
    assert_eq!(cart.header().title.trim(), "STARBYTE TEST");
    assert_eq!(cart.coprocessor_kind(), None);
}

#[test]
fn strips_copier_header() {
    let mut raw = vec![0_u8; 512];
    raw.extend(make_header(Mapper::HiRom));
    let cart = Cartridge::from_bytes(raw, None).unwrap();
    assert_eq!(cart.mapper(), Mapper::HiRom);
    assert_eq!(cart.rom().len(), 0x10000);
}

#[test]
fn maps_lorom_rom_reads() {
    let mut rom = make_header(Mapper::LoRom);
    rom[0] = 0x12;
    rom[0x7FFF] = 0x34;
    let cart = Cartridge::from_bytes(rom, None).unwrap();

    assert_eq!(cart.read_byte(0x008000), Some(0x12));
    assert_eq!(cart.read_byte(0x00FFFF), Some(0x34));
    assert_eq!(cart.read_byte(0x7E0000), None);
}

#[test]
fn maps_hirom_rom_reads() {
    let mut rom = vec![0_u8; 0x20000];
    let header = make_header(Mapper::HiRom);
    rom[..header.len()].copy_from_slice(&header);
    rom[0x008000] = 0x56;
    rom[0x01FFFF] = 0x78;
    let cart = Cartridge::from_bytes(rom, None).unwrap();

    assert_eq!(cart.read_byte(0x408000), Some(0x56));
    assert_eq!(cart.read_byte(0x41FFFF), Some(0x78));
    assert_eq!(cart.read_byte(0x001000), None);
}

#[test]
fn detects_dsp_chipset_from_header() {
    let mut rom = make_header(Mapper::LoRom);
    rom[0x7FC0 + 0x16] = 0x03;
    let cart = Cartridge::from_bytes(rom, None).unwrap();
    assert_eq!(cart.coprocessor_kind(), Some(CoprocessorKind::Dsp));
}

#[test]
fn detects_additional_coprocessor_families_from_header() {
    let mut sa1 = make_header(Mapper::LoRom);
    sa1[0x7FC0..0x7FC0 + 21].copy_from_slice(b"STARBYTE SA-1 TEST   ");
    sa1[0x7FC0 + 0x16] = 0x34;

    let mut cx4 = make_header(Mapper::LoRom);
    cx4[0x7FC0..0x7FC0 + 21].copy_from_slice(b"STARBYTE CX4 TEST    ");
    cx4[0x7FC0 + 0x16] = 0xF3;

    let mut sdd1 = make_header(Mapper::LoRom);
    sdd1[0x7FC0..0x7FC0 + 21].copy_from_slice(b"STARBYTE S-DD1 TEST  ");
    sdd1[0x7FC0 + 0x16] = 0x43;

    let mut obc1 = make_header(Mapper::LoRom);
    obc1[0x7FC0..0x7FC0 + 21].copy_from_slice(b"STARBYTE OBC1 TEST   ");
    obc1[0x7FC0 + 0x16] = 0x23;

    let mut srtc = make_header(Mapper::LoRom);
    srtc[0x7FC0..0x7FC0 + 21].copy_from_slice(b"STARBYTE SRTC TEST   ");
    srtc[0x7FC0 + 0x16] = 0x53;

    assert_eq!(Cartridge::from_bytes(sa1, None).unwrap().coprocessor_kind(), Some(CoprocessorKind::Sa1));
    assert_eq!(Cartridge::from_bytes(cx4, None).unwrap().coprocessor_kind(), Some(CoprocessorKind::Cx4));
    assert_eq!(Cartridge::from_bytes(sdd1, None).unwrap().coprocessor_kind(), Some(CoprocessorKind::Sdd1));
    assert_eq!(Cartridge::from_bytes(obc1, None).unwrap().coprocessor_kind(), Some(CoprocessorKind::Obc1));
    assert_eq!(Cartridge::from_bytes(srtc, None).unwrap().coprocessor_kind(), Some(CoprocessorKind::SRtc));
}

#[test]
fn rejects_images_without_a_header() {
    assert!(Cartridge::from_bytes(vec![0_u8; 16], None).is_err());
}

#[test]
fn declared_sizes_follow_header_codes() {
    let cart = Cartridge::from_bytes(make_header(Mapper::LoRom), None).unwrap();
    assert_eq!(cart.header().rom_size_bytes(), 512 * 1024);
    assert_eq!(cart.header().ram_size_bytes(), 8 * 1024);
}

#[test]
fn coprocessor_names_match_their_families() {
    assert_eq!(CoprocessorKind::Dsp.name(), "DSP");
    assert_eq!(CoprocessorKind::Sa1.name(), "SA-1");
    assert_eq!(CoprocessorKind::Custom(0x7F).name(), "Custom(0x7F)");
}

#[test]
fn io_error_quotes_the_path_as_debug_output() {
    let error = starbyte::error::Error::io("roms/a\"b.sfc".to_owned(), "not found".to_owned());
    assert_eq!(error.message(), "I/O error while accessing \"roms/a\\\"b.sfc\": not found");
    let plain = starbyte::error::Error::io("game.sfc".to_owned(), "denied".to_owned());
    assert_eq!(plain.message(), "I/O error while accessing \"game.sfc\": denied");
}
