use starbyte::ppu::{FrameBuffer, Ppu};

fn write_color(ppu: &mut Ppu, slot: u8, color: u16) {
    let [low, high] = color.to_le_bytes();
    ppu.write_register(0x2121, slot);
    ppu.write_register(0x2122, low);
    ppu.write_register(0x2122, high);
}

#[test]
fn cgram_stream_writes_update_backdrop_color() {
    let mut ppu = Ppu::default();
    ppu.write_register(0x2121, 0x00);
    ppu.write_register(0x2122, 0x1F);
    ppu.write_register(0x2122, 0x00);

    assert_eq!(ppu.cgram()[0], 0x1F);
    assert_eq!(ppu.cgram()[1], 0x00);
}

#[test]
fn vram_data_ports_store_words_and_advance_address() {
    let mut ppu = Ppu::default();
    ppu.write_register(0x2116, 0x00);
    ppu.write_register(0x2117, 0x00);
    ppu.write_register(0x2118, 0x34);
    ppu.write_register(0x2119, 0x12);
    ppu.write_register(0x2118, 0x78);
    ppu.write_register(0x2119, 0x56);

    assert_eq!(&ppu.vram()[..4], &[0x34, 0x12, 0x78, 0x56]);
}

#[test]
fn forced_blank_renders_black() {
    let mut ppu = Ppu::default();
    let mut frame = FrameBuffer::default();
    ppu.write_register(0x2100, 0x80);
    ppu.render_frame(&mut frame);

    assert!(frame.pixels().chunks_exact(4).all(|pixel| pixel == [0, 0, 0, 0xFF]));
}

#[test]
fn bg1_tilemap_render_uses_vram_tiles_and_cgram_palette() {
    let mut ppu = Ppu::default();
    let mut frame = FrameBuffer::default();

    write_color(&mut ppu, 0x00, 0x0000);
    write_color(&mut ppu, 0x01, 0x7C00);

    ppu.write_register(0x2116, 0x00);
    ppu.write_register(0x2117, 0x00);
    ppu.write_register(0x2118, 0x00);
    ppu.write_register(0x2119, 0x00);

    ppu.write_register(0x2116, 0x00);
    ppu.write_register(0x2117, 0x08);
    for row in 0..8 {
        let low = if row == 0 { 0x80 } else { 0x00 };
        ppu.write_register(0x2118, low);
        ppu.write_register(0x2119, 0x00);
    }
    for _ in 0..8 {
        ppu.write_register(0x2118, 0x00);
        ppu.write_register(0x2119, 0x00);
    }

    ppu.write_register(0x2105, 0x01);
    ppu.write_register(0x210B, 0x01);
    ppu.write_register(0x212C, 0x01);
    ppu.render_frame(&mut frame);

    assert_eq!(&frame.pixels()[..4], &[248, 0, 0, 0xFF]);
    assert_eq!(&frame.pixels()[4..8], &[0, 0, 0, 0xFF]);
}

#[test]
fn screen_disable_falls_back_to_backdrop() {
    let mut ppu = Ppu::default();
    let mut frame = FrameBuffer::default();
    write_color(&mut ppu, 0x00, 0x7C00);
    ppu.render_frame(&mut frame);

    assert!(frame.pixels().chunks_exact(4).all(|pixel| pixel == [248, 0, 0, 0xFF]));
}

#[test]
fn register_write_reads_back() {
    let mut ppu = Ppu::default();
    ppu.write_register(0x212C, 0x11);
    assert_eq!(ppu.read_register(0x212C), 0x11);
}

#[test]
fn frame_buffer_has_screen_shape() {
    let mut frame = FrameBuffer::default();
    assert_eq!(frame.width(), 256);
    assert_eq!(frame.height(), 224);
    assert_eq!(frame.pixels().len(), 256 * 224 * 4);
    frame.set_pixel(1, [1, 2, 3, 4]);
    assert_eq!(&frame.pixels()[4..8], &[1, 2, 3, 4]);
}

#[test]
fn screenshots_are_binary_ppm_without_alpha() {
    let mut frame = FrameBuffer::default();
    frame.set_pixel(0, [1, 2, 3, 4]);
    frame.set_pixel(256 * 224 - 1, [9, 8, 7, 6]);
    let image = frame.ppm_image();
    assert_eq!(&image[..15], b"P6\n256 224\n255\n");
    assert_eq!(image.len(), 15 + 256 * 224 * 3);
    assert_eq!(&image[15..18], &[1, 2, 3]);
    assert_eq!(&image[18..21], &[0, 0, 0]);
    assert_eq!(&image[image.len() - 3..], &[9, 8, 7]);
}
