use starbyte::dma::{DmaChannel, DmaController};

#[test]
fn register_roundtrip_preserves_channel_shape() {
    let mut dma = DmaController::default();
    dma.write_register(0x00, 0x81);
    dma.write_register(0x01, 0x22);
    dma.write_register(0x02, 0x34);
    dma.write_register(0x03, 0x12);
    dma.write_register(0x04, 0x7E);
    dma.write_register(0x05, 0x78);
    dma.write_register(0x06, 0x56);
    dma.write_register(0x08, 0xCD);
    dma.write_register(0x09, 0xAB);
    dma.write_register(0x0A, 0xFE);

    let channel = dma.channel(0).copied().unwrap();
    assert_eq!(
        channel,
        DmaChannel {
            control: 0x81,
            b_bus_address: 0x22,
            a_bus_address: 0x1234,
            a_bus_bank: 0x7E,
            byte_count: 0x5678,
            indirect_address: 0,
            hdma_table_address: 0xABCD,
            hdma_data_address: 0,
            hdma_line_counter: 0xFE,
            hdma_active: false,
            hdma_repeat: false,
        }
    );
    assert_eq!(dma.read_register(0x03), 0x12);
    assert_eq!(dma.read_register(0x09), 0xAB);
}

#[test]
fn exposes_transfer_mode_patterns() {
    assert_eq!(DmaController::b_bus_offsets_for_mode(0), &[0]);
    assert_eq!(DmaController::b_bus_offsets_for_mode(1), &[0, 1]);
    assert_eq!(DmaController::b_bus_offsets_for_mode(4), &[0, 1, 2, 3]);
}

#[test]
fn register_write_leaves_other_channels_alone() {
    let mut dma = DmaController::default();
    dma.write_register(0x12, 0x44);
    assert_eq!(dma.read_register(0x12), 0x44);
    assert_eq!(dma.read_register(0x02), 0x00);
    assert_eq!(dma.channel(1).unwrap().a_bus_address, 0x0044);
    assert!(dma.channel(8).is_none());
}

#[test]
fn channel_control_bits_decode() {
    let channel = DmaChannel { control: 0x9A, a_bus_address: 0x1234, a_bus_bank: 0x7E, ..DmaChannel::default() };
    assert!(channel.reverse_transfer());
    assert!(channel.fixed_transfer());
    assert!(channel.decrement_transfer());
    assert_eq!(channel.transfer_mode(), 2);
    assert_eq!(channel.a_bus_full_address(), 0x7E1234);
    assert_eq!(DmaChannel { byte_count: 0, ..DmaChannel::default() }.dma_length(), 0x10000);
}
