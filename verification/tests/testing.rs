use starbyte::bus::AccessKind;
use starbyte::cartridge::Cartridge;
use starbyte::cpu_65816::registers::Registers;
use starbyte::emulator::Emulator;
use starbyte::coprocessor::TrigTable;
use starbyte::manifest::AssetConfig;
use starbyte::testing::cpu_65816::{self, Mode};
use starbyte::testing::rom::{self, ExpectedOutcome, RomFixture};
use starbyte::testing::spc700;
use starbyte::testing::ComplianceSuiteConfig;

#[test]
fn cpu_65816_placeholder_core_can_match_a_synthetic_vector() {
    let vector = cpu_65816::TestVector {
        name: Some("placeholder pass".to_owned()),
        opcode: 0xEA,
        mode: Mode::Native,
        initial: cpu_65816::CpuState { registers: Registers { pc: 0x1234, pbr: 0, ..Registers::default() }, ram: Vec::new() },
        final_state: cpu_65816::CpuState {
            registers: Registers { pc: 0x1235, pbr: 0, ..Registers::default() },
            ram: Vec::new(),
        },
        cycles: vec![cpu_65816::CycleExpectation {
            address: 0x1234,
            value: Some(0xEA),
            access: AccessKind::Read,
            status: "pcrr".to_owned(),
        }],
    };

    let summary = cpu_65816::run_with_current_core(&[vector], 4);
    assert_eq!(summary.passed, 1);
    assert_eq!(summary.failed, 0);
}

#[test]
fn spc700_placeholder_core_can_match_a_synthetic_vector() {
    let vector = spc700::TestVector {
        name: Some("placeholder pass".to_owned()),
        opcode: 0x00,
        initial: spc700::CpuState {
            pc: 0x1000,
            a: 1,
            x: 2,
            y: 3,
            sp: 0xFF,
            psw: 0x12,
            ram: vec![spc700::MemoryByte { address: 0x1000, value: 0x00 }],
        },
        final_state: spc700::CpuState {
            pc: 0x1001,
            a: 1,
            x: 2,
            y: 3,
            sp: 0xFF,
            psw: 0x12,
            ram: vec![spc700::MemoryByte { address: 0x1000, value: 0x00 }],
        },
        cycles: vec![
            spc700::CycleExpectation { address: Some(0x1000), value: Some(0), access: AccessKind::Read },
            spc700::CycleExpectation { address: Some(0x1001), value: None, access: AccessKind::Read },
        ],
    };

    let summary = spc700::run_with_current_core(&[vector], 4);
    assert_eq!(summary.passed, 1);
    assert_eq!(summary.failed, 0);
}

#[test]
fn mismatching_65816_vector_reports_registers_and_cycles() {
    let vector = cpu_65816::TestVector {
        name: None,
        opcode: 0xEA,
        mode: Mode::Emulation,
        initial: cpu_65816::CpuState { registers: Registers::default(), ram: Vec::new() },
        final_state: cpu_65816::CpuState { registers: Registers { pc: 7, ..Registers::default() }, ram: Vec::new() },
        cycles: Vec::new(),
    };
    let summary = cpu_65816::run_with_current_core(&[vector.clone(), vector], 1);
    assert_eq!(summary.suite_name, "65816");
    assert_eq!(summary.total, 2);
    assert_eq!(summary.failed, 2);
    assert_eq!(summary.failures.len(), 1);
    assert_eq!(summary.failures[0].label, "opcode 0xEA Emulation");
    assert_eq!(
        summary.failures[0].reasons,
        vec![
            "register mismatch: expected Registers { a: 0, x: 0, y: 0, s: 0, d: 0, pc: 7, pbr: 0, dbr: 0, p: 0, emulation: false }, saw Registers { a: 0, x: 0, y: 0, s: 0, d: 0, pc: 1, pbr: 0, dbr: 0, p: 0, emulation: false }".to_owned(),
            "cycle mismatch: expected 0, saw 1".to_owned(),
        ]
    );
    assert_eq!(Mode::Native.suffix(), "n");
    assert_eq!(Mode::Emulation.suffix(), "e");
}

#[test]
fn mismatching_spc700_vector_reports_register_state() {
    let vector = spc700::TestVector {
        name: Some("advance".to_owned()),
        opcode: 0x00,
        initial: spc700::CpuState { pc: 4096, a: 1, x: 2, y: 3, sp: 255, psw: 18, ram: Vec::new() },
        final_state: spc700::CpuState { pc: 4100, a: 1, x: 2, y: 3, sp: 255, psw: 18, ram: Vec::new() },
        cycles: vec![spc700::CycleExpectation { address: Some(4096), value: Some(0), access: AccessKind::Read }],
    };
    let summary = spc700::run_with_current_core(&[vector], 8);
    assert_eq!(summary.failed, 1);
    assert_eq!(summary.failures[0].label, "advance (opcode 0x00)");
    assert_eq!(
        summary.failures[0].reasons,
        vec![
            "register mismatch: expected CpuState { pc: 4100, a: 1, x: 2, y: 3, sp: 255, psw: 18, ram: [] }, saw CpuState { pc: 4097, a: 1, x: 2, y: 3, sp: 255, psw: 18, ram: [] }".to_owned(),
            "cycle mismatch: expected 1, saw 2".to_owned(),
        ]
    );
}

#[test]
fn unsupported_spc700_opcode_is_the_only_reason() {
    let vector = spc700::TestVector {
        name: None,
        opcode: 0xE8,
        initial: spc700::CpuState {
            pc: 0x200,
            a: 0,
            x: 0,
            y: 0,
            sp: 0,
            psw: 0,
            ram: vec![spc700::MemoryByte { address: 0x200, value: 0xE8 }],
        },
        final_state: spc700::CpuState { pc: 0x202, a: 5, x: 0, y: 0, sp: 0, psw: 0, ram: Vec::new() },
        cycles: Vec::new(),
    };
    let summary = spc700::run_with_current_core(&[vector], 8);
    assert_eq!(summary.failures[0].reasons, vec!["unsupported opcode for SPC700: 0xE8".to_owned()]);
}

#[test]
fn suite_config_reports_configured_paths() {
    let mut config = ComplianceSuiteConfig::default();
    assert!(!config.is_configured());
    config.spc700_dir = Some("/corpus/spc".to_owned());
    assert!(config.is_configured());
    assert_eq!(config.suite_path(&config.spc700_dir), Some("/corpus/spc"));
    assert_eq!(config.suite_path(&config.rom_suite_dir), None);
}

fn regression_rom() -> Vec<u8> {
    let mut rom = vec![0_u8; 0x10000];
    let base = 0x7FC0;
    rom[base..base + 21].copy_from_slice(b"STARBYTE REGRESSION  ");
    rom[base + 0x15] = 0x20;
    rom[base + 0x16] = 0x00;
    rom[base + 0x17] = 0x09;
    rom[base + 0x18] = 0x01;
    rom[base + 0x19] = 0x01;
    rom[base + 0x1C] = 0x00;
    rom[base + 0x1D] = 0xFF;
    rom[base + 0x1E] = 0xFF;
    rom[base + 0x1F] = 0x00;
    rom[0x7FFC] = 0x00;
    rom[0x7FFD] = 0x80;
    rom[0x0000] = 0xEA;
    rom
}

#[test]
fn rom_fixture_runs_against_the_emulator() {
    let expected_hash = {
        let mut emulator = Emulator::default();
        emulator.load_rom(Cartridge::from_bytes(regression_rom(), None).unwrap());
        emulator.host_write_u8(0x002121, 0x00);
        emulator.host_write_u8(0x002122, 0x00);
        emulator.host_write_u8(0x002122, 0x7C);
        emulator.host_write_u8(0x00212C, 0x01);
        emulator.run_until_frame().unwrap();
        rom::framebuffer_hash(emulator.framebuffer())
    };
    let fixture = RomFixture {
        name: "ppu backdrop".to_owned(),
        rom: "case.sfc".to_owned(),
        frames: 1,
        setup_writes: vec![(8481, 0), (8482, 0), (8482, 124), (8492, 1)],
        expected_reads: Vec::new(),
        expected: ExpectedOutcome {
            frame: Some(1),
            cpu_pc: None,
            frame_hash: Some(expected_hash),
            save_ram_len: Some(2048),
            min_apu_steps: Some(1),
            first_pixel_rgba: Some([248, 0, 0, 255]),
        },
    };
    let cartridges = vec![Cartridge::from_bytes(regression_rom(), None)];
    let run = rom::run_with_current_core(&[fixture.clone()], &cartridges, &AssetConfig::default(), &TrigTable::empty(), None, 8);
    assert_eq!(run.failed, 0);
    assert_eq!(run.passed, 1);

    let mut wrong = fixture;
    wrong.expected.frame = Some(5);
    wrong.expected.first_pixel_rgba = Some([0, 0, 0, 255]);
    let run = rom::run_with_current_core(&[wrong], &cartridges, &AssetConfig::default(), &TrigTable::empty(), None, 8);
    assert_eq!(run.failed, 1);
    assert_eq!(
        run.failures[0].reasons,
        vec![
            "frame mismatch: expected 5, got 1".to_owned(),
            "first pixel mismatch: expected [0, 0, 0, 255], got [248, 0, 0, 255]".to_owned(),
        ]
    );
}

#[test]
fn rom_fixture_with_unreadable_rom_reports_the_load_error() {
    let fixture = RomFixture {
        name: "broken".to_owned(),
        rom: "missing.sfc".to_owned(),
        frames: 1,
        setup_writes: Vec::new(),
        expected_reads: vec![(0x7E0000, 1)],
        expected: ExpectedOutcome {
            frame: None,
            cpu_pc: None,
            frame_hash: None,
            save_ram_len: None,
            min_apu_steps: None,
            first_pixel_rgba: None,
        },
    };
    let cartridges = vec![Cartridge::from_bytes(vec![0; 8], None)];
    let run = rom::run_with_current_core(&[fixture], &cartridges, &AssetConfig::default(), &TrigTable::empty(), None, 8);
    assert_eq!(run.failed, 1);
    assert_eq!(run.failures[0].reasons.len(), 1);
    assert!(run.failures[0].reasons[0].starts_with("invalid ROM: "));
}

#[test]
fn host_read_mismatches_are_reported_in_hex() {
    let fixture = RomFixture {
        name: "reads".to_owned(),
        rom: "case.sfc".to_owned(),
        frames: 0,
        setup_writes: vec![(0x7E0010, 0x12)],
        expected_reads: vec![(0x7E0010, 0x12), (0x7E0011, 0x34)],
        expected: ExpectedOutcome {
            frame: None,
            cpu_pc: Some(0x8000),
            frame_hash: None,
            save_ram_len: None,
            min_apu_steps: None,
            first_pixel_rgba: None,
        },
    };
    let cartridges = vec![Cartridge::from_bytes(regression_rom(), None)];
    let run = rom::run_with_current_core(&[fixture], &cartridges, &AssetConfig::default(), &TrigTable::empty(), None, 8);
    assert_eq!(run.failures[0].reasons, vec!["host read mismatch at 0x7E0011: expected 0x34, got 0x00".to_owned()]);
}

#[test]
fn corpus_files_are_named_by_lower_case_opcode() {
    assert_eq!(cpu_65816::opcode_file_name(0xEA, Mode::Native), "ea.n.json");
    assert_eq!(cpu_65816::opcode_file_name(0x0A, Mode::Emulation), "0a.e.json");
    assert_eq!(spc700::opcode_file_name(0xBC), "bc.json");
    assert!(cpu_65816::is_vector_file_name("ea.n.json"));
    assert!(!cpu_65816::is_vector_file_name("ea.json"));
}

#[test]
fn corpus_cycle_statuses_name_accesses() {
    assert_eq!(cpu_65816::cycle_access("dp-read").unwrap(), AccessKind::Read);
    assert_eq!(cpu_65816::cycle_access("dp-write").unwrap(), AccessKind::Write);
    assert!(cpu_65816::cycle_access("dpr").is_err());
    assert_eq!(cpu_65816::cycle_access("xyzq").unwrap_err().message(), "invalid ROM: unsupported 65816 cycle status `xyzq`");
    assert_eq!(spc700::cycle_access("wait").unwrap(), AccessKind::Wait);
    assert_eq!(spc700::cycle_access("idle").unwrap_err().message(), "invalid ROM: unsupported SPC700 cycle access `idle`");
}
