use std::collections::HashMap;

use starbyte::bus::{AccessKind, Address, Bus};
use starbyte::cpu_65816::Cpu65816;

#[derive(Default)]
struct TestBus {
    bytes: HashMap<Address, u8>,
}

impl TestBus {
    fn with_bytes(bytes: &[(Address, u8)]) -> Self {
        let mut map = HashMap::new();
        for (address, value) in bytes {
            map.insert(*address, *value);
        }
        Self { bytes: map }
    }
}

impl Bus for TestBus {
    fn read(&mut self, address: Address) -> u8 {
        self.bytes.get(&address).copied().unwrap_or(0)
    }

    fn write(&mut self, address: Address, value: u8) {
        self.bytes.insert(address, value);
    }
}

#[test]
fn stz_direct_page_x_stores_zero_without_opcode_failure() {
    let mut cpu = Cpu65816::default();
    cpu.registers.pc = 0x8000;
    cpu.registers.d = 0x0010;
    cpu.registers.x = 0x0004;
    cpu.registers.p = 0x00;
    cpu.registers.emulation = false;

    let mut bus = TestBus::with_bytes(&[(0x008000, 0x74), (0x008001, 0x20), (0x000034, 0xAA), (0x000035, 0xBB)]);

    let trace = cpu.step_with_bus(&mut bus).unwrap();

    assert_eq!(cpu.registers.pc, 0x8002);
    assert_eq!(bus.read(0x000034), 0x00);
    assert_eq!(bus.read(0x000035), 0x00);
    assert!(trace
        .iter()
        .any(|event| { event.address == 0x000034 && event.access == AccessKind::Write && event.value == 0x00 }));
}

#[test]
fn stz_absolute_x_uses_indexed_target_address() {
    let mut cpu = Cpu65816::default();
    cpu.registers.pc = 0x8000;
    cpu.registers.x = 0x0003;
    cpu.registers.p = 0x20;
    cpu.registers.emulation = false;

    let mut bus =
        TestBus::with_bytes(&[(0x008000, 0x9E), (0x008001, 0x34), (0x008002, 0x12), (0x001237, 0xFE)]);

    cpu.step_with_bus(&mut bus).unwrap();

    assert_eq!(cpu.registers.pc, 0x8003);
    assert_eq!(bus.read(0x001237), 0x00);
}

#[test]
fn lda_immediate_loads_accumulator_and_flags() {
    let mut cpu = Cpu65816::default();
    cpu.registers.pc = 0x8000;
    cpu.registers.p = 0x20;
    cpu.registers.emulation = false;
    let mut bus = TestBus::with_bytes(&[(0x008000, 0xA9), (0x008001, 0x00)]);
    let trace = cpu.step_with_bus(&mut bus).unwrap();
    assert_eq!(cpu.registers.pc, 0x8002);
    assert_eq!(cpu.registers.a & 0xFF, 0x00);
    assert_eq!(cpu.registers.p & 0x02, 0x02);
    assert_eq!(trace.len(), 2);
}

#[test]
fn unsupported_opcode_is_reported_with_its_address() {
    let mut cpu = Cpu65816::default();
    cpu.registers.pc = 0x8000;
    let mut bus = TestBus::with_bytes(&[(0x008000, 0x02)]);
    let error = cpu.step_with_bus(&mut bus);
    match error {
        Err(starbyte::error::Error::UnsupportedOpcode { opcode, address, .. }) => {
            assert_eq!(address, 0x008000);
            assert!(opcode == 0x02);
        }
        other => panic!("unexpected result: {other:?}"),
    }
}

#[test]
fn placeholder_step_advances_one_byte() {
    let mut cpu = Cpu65816::default();
    cpu.registers.pc = 0xFFFF;
    cpu.step();
    assert_eq!(cpu.registers.pc, 0x0000);
    assert_eq!(cpu.cycles(), 1);
    assert_eq!(cpu.program_address(), 0);
}
