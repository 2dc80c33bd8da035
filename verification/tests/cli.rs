use std::path::PathBuf;

use starbyte::cartridge::Cartridge;
use starbyte::cli::{
    default_filter, is_windows_reserved_stem, level_from_verbosity, parse_controller_state, parse_hex_opcode,
    resolve_save_ram_path, resolve_state_path, sanitize_file_stem, LogLevel, PathError,
};
use starbyte::input::ControllerState;
use starbyte::paths::{is_single_component, join_path, path_file_name, path_file_stem, path_with_extension};

fn test_cartridge_with_source(source: Option<&str>) -> Cartridge {
    let mut rom = vec![0_u8; 0x10000];
    let base = 0x7FC0;
    rom[base..base + 20].copy_from_slice(b"STARBYTE PATH TEST  ");
    rom[base + 0x15] = 0x20;
    rom[base + 0x16] = 0x00;
    rom[base + 0x17] = 0x09;
    rom[base + 0x18] = 0x01;
    rom[base + 0x19] = 0x01;
    rom[base + 0x1C] = 0x00;
    rom[base + 0x1D] = 0xFF;
    rom[base + 0x1E] = 0xFF;
    rom[base + 0x1F] = 0x00;
    Cartridge::from_bytes(rom, source.map(str::to_owned)).unwrap()
}

fn test_cartridge() -> Cartridge {
    test_cartridge_with_source(Some("C:/ROMs/test game.sfc"))
}

#[test]
fn sanitizes_windows_hostile_file_stems() {
    assert_eq!(sanitize_file_stem("CON"), "CON_rom");
    assert_eq!(sanitize_file_stem("AUX"), "AUX_rom");
    assert_eq!(sanitize_file_stem("bad:name*test"), "bad_name_test");
    assert_eq!(sanitize_file_stem(" trailing. "), "trailing");
}

#[test]
fn resolves_state_path_inside_state_dir() {
    let cartridge = test_cartridge();
    let path = resolve_state_path(None, Some("states"), &cartridge).unwrap().unwrap();
    assert_eq!(PathBuf::from(path), PathBuf::from("states/test game.state.json"));
}

#[test]
fn sanitize_falls_back_for_empty_stems() {
    assert_eq!(sanitize_file_stem("...___"), "starbyte-save");
    assert_eq!(sanitize_file_stem("lpt3"), "lpt3_rom");
    assert!(is_windows_reserved_stem("com9"));
    assert!(!is_windows_reserved_stem("COM10"));
}

#[test]
fn explicit_state_paths_are_placed_or_kept() {
    let cartridge = test_cartridge();
    assert_eq!(resolve_state_path(Some("slot1.json"), Some("states"), &cartridge).unwrap(), Some("states/slot1.json".to_owned()));
    assert_eq!(
        resolve_state_path(Some("other/slot1.json"), Some("states"), &cartridge).unwrap(),
        Some("other/slot1.json".to_owned())
    );
    assert_eq!(resolve_state_path(Some("slot1.json"), None, &cartridge).unwrap(), Some("slot1.json".to_owned()));
    assert_eq!(resolve_state_path(None, None, &cartridge).unwrap(), None);
}

#[test]
fn save_ram_path_uses_save_dir_or_rom_path() {
    let cartridge = test_cartridge();
    assert_eq!(resolve_save_ram_path(&cartridge, Some("saves")).unwrap(), Some("saves/test game.srm".to_owned()));
    assert_eq!(resolve_save_ram_path(&cartridge, None).unwrap(), Some("C:/ROMs/test game.srm".to_owned()));
    let sourceless = test_cartridge_with_source(None);
    assert_eq!(
        resolve_save_ram_path(&sourceless, Some("saves")).unwrap(),
        Some("saves/STARBYTE_PATH_TEST.srm".to_owned())
    );
    let error = resolve_save_ram_path(&sourceless, None).unwrap_err();
    assert_eq!(error, PathError::NoSource);
    assert!(error.message().contains("without a filesystem source"));
}

#[test]
fn controller_argument_parses_button_names() {
    let state = parse_controller_state(" B , start,,UP ").unwrap();
    assert_eq!(state, ControllerState { b: true, start: true, up: true, ..ControllerState::default() });
    let error = parse_controller_state("a,Turbo,b").unwrap_err();
    assert_eq!(error.name, "turbo");
    assert_eq!(error.message(), "unknown controller button `turbo`");
    assert_eq!(parse_controller_state("").unwrap(), ControllerState::default());
}

#[test]
fn log_levels_follow_verbosity() {
    assert_eq!(default_filter(0), "info,starbyte_core=debug,starbyte_cli=debug");
    assert_eq!(default_filter(1), "debug");
    assert_eq!(default_filter(7), "trace");
    assert_eq!(level_from_verbosity(0), LogLevel::Info);
    assert_eq!(level_from_verbosity(1), LogLevel::Debug);
    assert_eq!(level_from_verbosity(2), LogLevel::Trace);
}

#[test]
fn opcode_arguments_parse_as_hex() {
    assert_eq!(parse_hex_opcode("a9").unwrap(), 0xA9);
    assert_eq!(parse_hex_opcode("0xA9").unwrap(), 0xA9);
    assert_eq!(parse_hex_opcode("0X0f").unwrap(), 0x0F);
    assert_eq!(parse_hex_opcode("+7").unwrap(), 7);
    assert!(parse_hex_opcode("100").is_err());
    assert!(parse_hex_opcode("0x").is_err());
    let error = parse_hex_opcode("zz").unwrap_err();
    assert_eq!(error.message(), "invalid opcode `zz`; expected hex such as 00 or 0xA9");
}

#[test]
fn path_helpers_follow_file_names() {
    assert_eq!(join_path("states", "a.json"), "states/a.json");
    assert_eq!(join_path("states/", "/abs/a.json"), "/abs/a.json");
    assert_eq!(path_file_name("roms/game.sfc").as_deref(), Some("game.sfc"));
    assert_eq!(path_file_stem("roms/archive.tar.gz").as_deref(), Some("archive.tar"));
    assert_eq!(path_file_stem(".hidden").as_deref(), Some(".hidden"));
    assert_eq!(path_with_extension("roms/game.sfc", "srm"), "roms/game.srm");
    assert_eq!(path_with_extension("roms/game", "srm"), "roms/game.srm");
    assert!(is_single_component("slot.json"));
    assert!(!is_single_component("a/b.json"));
    assert!(!is_single_component("/slot.json"));
}
