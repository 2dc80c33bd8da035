use starbyte::cartridge::{Cartridge, Mapper};
use starbyte::emulator::{Emulator, EmulatorBuilder};
use starbyte::error::Error;
use starbyte::input::ControllerState;
use starbyte::manifest::AssetConfig;

fn rom_bytes() -> Vec<u8> {
    let mut rom = vec![0_u8; 0x10000];
    let base = 0x7FC0;
    rom[base..base + 21].copy_from_slice(b"STARBYTE EMULATOR    ");
    rom[base + 0x15] = 0x20;
    rom[base + 0x16] = 0x00;
    rom[base + 0x17] = 0x09;
    rom[base + 0x18] = 0x01;
    rom[base + 0x19] = 0x01;
    rom[base + 0x1C] = 0xFF;
    rom[base + 0x1D] = 0xFF;
    rom[base + 0x1E] = 0x00;
    rom[base + 0x1F] = 0x00;
    rom
}

fn nop_cart() -> Cartridge {
    let mut rom = rom_bytes();
    rom[0x7FFC] = 0x00;
    rom[0x7FFD] = 0x80;
    rom[0x0000] = 0xEA;
    let cart = Cartridge::from_bytes(rom, None).unwrap();
    assert_eq!(cart.mapper(), Mapper::LoRom);
    cart
}

#[test]
fn step_instruction_uses_reset_vector_and_bus_timing() {
    let mut emulator = Emulator::default();
    emulator.load_rom(nop_cart());
    emulator.step_instruction().unwrap();

    assert_eq!(emulator.cpu_registers().pc, 0x8001);
    assert_eq!(emulator.timing().master_clock, 12);
}

#[test]
fn run_until_frame_renders_framebuffer() {
    let mut emulator = Emulator::default();
    emulator.load_rom(nop_cart());
    emulator.host_write_u8(0x002121, 0x00);
    emulator.host_write_u8(0x002122, 0x00);
    emulator.host_write_u8(0x002122, 0x7C);
    emulator.host_write_u8(0x00212C, 0x01);
    emulator.run_until_frame().unwrap();

    assert_eq!(emulator.framebuffer().pixels()[..4], [248, 0, 0, 0xFF]);
}

#[test]
fn run_until_frame_buffers_audio_and_accepts_input() {
    let mut emulator = Emulator::default();
    emulator.load_rom(nop_cart());
    emulator.set_controller1(ControllerState { start: true, a: true, ..ControllerState::default() });
    emulator.host_write_u8(0x004016, 0x01);
    emulator.host_write_u8(0x004016, 0x00);
    emulator.run_until_frame().unwrap();

    assert!(!emulator.audio_samples().samples.is_empty());
    assert_eq!(emulator.host_read_u8(0x004218), 0x08);
    assert_eq!(emulator.host_read_u8(0x004219), 0x01);
}

#[test]
fn running_without_a_rom_is_refused() {
    let mut emulator = Emulator::default();
    assert!(matches!(emulator.run_until_frame(), Err(Error::InvalidRom(_))));
    assert!(matches!(emulator.step_instruction(), Err(Error::InvalidRom(_))));
    assert!(emulator.save_ram().is_none());
}

#[test]
fn save_ram_roundtrips_through_the_emulator() {
    let mut emulator = Emulator::default();
    emulator.load_rom(nop_cart());
    let size = emulator.save_ram().unwrap().len();
    assert_eq!(size, 2048);
    let bytes = vec![0x5A; size];
    emulator.load_save_ram(&bytes).unwrap();
    assert_eq!(emulator.save_ram().unwrap(), bytes);
    let error = emulator.load_save_ram(&[1, 2, 3]).unwrap_err();
    assert!(matches!(error, Error::InvalidSaveRam { expected: 2048, actual: 3 }));
}

#[test]
fn reset_restarts_timing_at_the_reset_vector() {
    let mut emulator = Emulator::default();
    emulator.load_rom(nop_cart());
    emulator.step_instruction().unwrap();
    emulator.reset();
    assert_eq!(emulator.timing().master_clock, 0);
    assert_eq!(emulator.cpu_registers().pc, 0x8000);
    assert!(emulator.audio_samples().samples.is_empty());
}

#[test]
fn builder_keeps_assets_and_loads_configured_firmware() {
    let assets = AssetConfig { spc700_ipl: Some("ipl.rom".to_owned()), ..AssetConfig::default() };
    let mut emulator = EmulatorBuilder::new().assets(assets.clone()).build();
    assert_eq!(emulator.assets(), &assets);
    assert_eq!(emulator.load_apu_ipl_rom(Ok(vec![0xAA; 64])).unwrap(), true);
    assert!(emulator.apu_status().has_ipl_rom);
    assert!(emulator.install_apu_ipl_rom(vec![0; 3], None).is_err());
}

#[test]
fn run_until_frame_advances_the_frame_counter_by_one() {
    let mut emulator = Emulator::default();
    emulator.load_rom(nop_cart());
    emulator.run_until_frame().unwrap();
    assert_eq!(emulator.timing().frame, 1);
    emulator.run_until_frame().unwrap();
    assert_eq!(emulator.timing().frame, 2);
    assert!(!emulator.audio_samples().samples.is_empty());
}

#[test]
fn step_instruction_refuses_an_unsupported_opcode_at_the_program_counter() {
    let mut rom = rom_bytes();
    rom[0x7FFC] = 0x00;
    rom[0x7FFD] = 0x80;
    rom[0x0000] = 0x42;
    let mut emulator = Emulator::default();
    emulator.load_rom(Cartridge::from_bytes(rom, None).unwrap());
    let error = emulator.step_instruction().unwrap_err();
    assert_eq!(error, Error::UnsupportedOpcode { cpu: "65816".to_owned(), opcode: 0x42, address: 0x008000 });
    assert_eq!(emulator.cpu_registers().pc, 0x8000);
    assert_eq!(emulator.timing().master_clock, 0);
}

#[test]
fn save_ram_without_a_rom_is_refused_and_changes_nothing() {
    let mut emulator = Emulator::default();
    let error = emulator.load_save_ram(&[1, 2]).unwrap_err();
    assert_eq!(error, Error::InvalidRom("no ROM loaded".to_owned()));
    assert!(emulator.save_ram().is_none());
}

#[test]
fn run_until_frame_stops_on_the_unsupported_opcode_it_fetched() {
    let mut rom = rom_bytes();
    rom[0x7FFC] = 0x00;
    rom[0x7FFD] = 0x80;
    rom[0x0000] = 0xEA;
    rom[0x0001] = 0x42;
    let mut emulator = Emulator::default();
    emulator.load_rom(Cartridge::from_bytes(rom, None).unwrap());
    let error = emulator.run_until_frame().unwrap_err();
    assert_eq!(error, Error::UnsupportedOpcode { cpu: "65816".to_owned(), opcode: 0x42, address: 0x008001 });
    assert_eq!(emulator.cpu_registers().pc, 0x8001);
    assert_eq!(emulator.timing().frame, 0);
}

#[test]
fn save_ram_size_follows_the_header() {
    let mut emulator = Emulator::default();
    emulator.load_rom(nop_cart());
    let expected = emulator.cartridge().unwrap().header().ram_size_bytes();
    assert_eq!(emulator.save_ram().unwrap().len(), expected);
    assert!(emulator.load_save_ram(&vec![0; expected]).is_ok());
    assert!(emulator.load_save_ram(&vec![0; expected + 1]).is_err());
}
