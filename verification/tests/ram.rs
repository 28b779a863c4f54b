use chip8_core::{Chip8, Ram};

#[test]
fn ram_starts_zeroed() {
    let mut r = Ram::new();
    assert_eq!(r.read_byte(0), 0);
    assert_eq!(r.read_byte(2048), 0);
    assert_eq!(r.read_byte(4095), 0);
}

#[test]
fn ram_write_then_read() {
    let mut r = Ram::new();
    r.write_byte(0x200, 0xAB);
    r.write_byte(0x201, 0xCD);
    assert_eq!(r.read_byte(0x200), 0xAB);
    assert_eq!(r.read_byte(0x201), 0xCD);
    assert_eq!(r.read_byte(0x202), 0);
}

#[test]
fn ram_overwrite_keeps_last_value() {
    let mut r = Ram::new();
    r.write_byte(7, 1);
    r.write_byte(7, 2);
    assert_eq!(r.read_byte(7), 2);
}

#[test]
fn font_table_preloaded() {
    let c = Chip8::new();
    // first bytes of glyph 0 and last byte of glyph F
    assert_eq!(c.get_ram(0), 0xF0);
    assert_eq!(c.get_ram(1), 0x90);
    assert_eq!(c.get_ram(4), 0xF0);
    assert_eq!(c.get_ram(79), 0x80);
    // beyond the font everything is zero
    assert_eq!(c.get_ram(80), 0);
    assert_eq!(c.get_ram(0x1FF), 0);
}

#[test]
fn load_places_image_at_start_address() {
    let mut c = Chip8::new();
    c.load(&[1, 2, 3]).unwrap();
    assert_eq!(c.get_ram(0x1FF), 0);
    assert_eq!(c.get_ram(0x200), 1);
    assert_eq!(c.get_ram(0x201), 2);
    assert_eq!(c.get_ram(0x202), 3);
    assert_eq!(c.get_ram(0x203), 0);
}
