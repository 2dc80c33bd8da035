use starbyte::apu::{Apu, SPC700_IPL_ROM_LEN};
use starbyte::error::Error;

#[test]
fn installs_valid_ipl_rom() {
    let mut apu = Apu::default();
    apu.install_ipl_rom_bytes(vec![0xAA; SPC700_IPL_ROM_LEN], None).unwrap();
    assert!(apu.status().has_ipl_rom);
    assert_eq!(apu.ipl_rom().unwrap()[0], 0xAA);
}

#[test]
fn rejects_invalid_ipl_rom_size() {
    let mut apu = Apu::default();
    let error = apu.install_ipl_rom_bytes(vec![0xAA; SPC700_IPL_ROM_LEN - 1], None);
    assert!(error.is_err());
}

#[test]
fn port_roundtrip_and_step_accounting_work() {
    let mut apu = Apu::default();
    apu.write_cpu_port(0, 0x12).unwrap();
    apu.write_apu_port(3, 0x34).unwrap();
    apu.step_master_cycles(12);

    assert_eq!(apu.read_cpu_port(0).unwrap(), 0x12);
    assert_eq!(apu.read_apu_port(3).unwrap(), 0x34);
    assert_eq!(apu.status().spc700_steps, 2);
}

#[test]
fn invalid_ipl_rom_reports_its_length() {
    let mut apu = Apu::default();
    let error = apu.install_ipl_rom_bytes(vec![0; 10], None).unwrap_err();
    assert_eq!(
        error.message(),
        "invalid firmware for SPC700 IPL ROM: expected 64 bytes but received 10 bytes"
    );
}

#[test]
fn out_of_range_port_is_refused() {
    let mut apu = Apu::default();
    assert!(matches!(apu.write_cpu_port(4, 1), Err(Error::Unimplemented(_))));
    assert!(apu.read_apu_port(7).is_err());
}

#[test]
fn configured_ipl_rom_loads_from_read_bytes() {
    let mut apu = Apu::with_ipl_path(Some("ipl.rom".to_owned()));
    assert_eq!(apu.load_configured_ipl_rom(Ok(vec![1; 64])).unwrap(), true);
    assert!(apu.status().has_ipl_rom);

    let mut bare = Apu::default();
    assert_eq!(bare.load_configured_ipl_rom(Ok(vec![1; 64])).unwrap(), false);
    assert!(!bare.status().has_ipl_rom);

    let mut failing = Apu::with_ipl_path(Some("ipl.rom".to_owned()));
    let read = Err(Error::Io { path: "ipl.rom".to_owned(), details: "missing".to_owned() });
    assert!(failing.load_configured_ipl_rom(read).is_err());
}

#[test]
fn cpu_port_roundtrip_law_holds_for_each_port() {
    let mut apu = Apu::default();
    for port in 0..4 {
        apu.write_cpu_port(port, 0x40 + port as u8).unwrap();
    }
    for port in 0..4 {
        assert_eq!(apu.read_cpu_port(port).unwrap(), 0x40 + port as u8);
    }
}

#[test]
fn out_of_range_port_names_the_problem() {
    let mut apu = Apu::default();
    let expected = Error::Unimplemented("APU port index out of range".to_owned());
    assert_eq!(apu.read_cpu_port(4).unwrap_err(), expected);
    assert_eq!(apu.write_cpu_port(9, 1).unwrap_err(), expected);
    assert_eq!(apu.read_cpu_port(0).unwrap(), 0);
}

#[test]
fn short_ipl_rom_names_the_firmware() {
    let mut apu = Apu::default();
    let error = apu.install_ipl_rom_bytes(vec![0; 3], None).unwrap_err();
    assert_eq!(error, Error::InvalidFirmware { name: "SPC700 IPL ROM".to_owned(), actual_len: 3 });
}
