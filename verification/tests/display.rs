use chip8_core::Chip8;

fn draw_prog(words: &[u16]) -> Chip8 {
    let mut bytes: Vec<u8> = Vec::new();
    for w in words {
        bytes.push((w >> 8) as u8);
        bytes.push((w & 0xFF) as u8);
    }
    let mut c = Chip8::new();
    c.load(&bytes).unwrap();
    c
}

fn step_ok(c: &mut Chip8, steps: usize) {
    for _ in 0..steps {
        c.tick().unwrap();
    }
}

fn pixel(c: &Chip8, x: usize, y: usize) -> bool {
    c.get_display()[x + 64 * y]
}

#[test]
fn display_starts_blank() {
    let c = Chip8::new();
    assert_eq!(c.get_display().len(), c.display_len());
    for p in c.get_display() {
        assert!(!p);
    }
}

#[test]
fn draw_font_zero_glyph() {
    // I := 0 (glyph 0), draw 5 rows at (V0, V1) == (0, 0)
    let mut c = draw_prog(&[0xA000, 0xD015]);
    step_ok(&mut c, 2);
    assert_eq!(c.get_v(15), 0);
    // rows of glyph 0: F0 90 90 90 F0
    let rows: [u8; 5] = [0xF0, 0x90, 0x90, 0x90, 0xF0];
    for y in 0..32 {
        for x in 0..64 {
            let expected = if y < 5 && x < 8 {
                (rows[y] >> (7 - x)) & 1 == 1
            } else {
                false
            };
            assert_eq!(pixel(&c, x, y), expected);
        }
    }
}

#[test]
fn draw_twice_restores_screen_and_reports_collision() {
    let mut c = draw_prog(&[0xA000, 0xD015, 0xD015]);
    step_ok(&mut c, 2);
    assert_eq!(c.get_v(15), 0);
    step_ok(&mut c, 1);
    assert_eq!(c.get_v(15), 1);
    for p in c.get_display() {
        assert!(!p);
    }
}

#[test]
fn draw_xor_merges_overlapping_sprites() {
    // draw glyph 0, then glyph 1 on top at the same corner
    let mut c = draw_prog(&[0xA000, 0xD015, 0xA005, 0xD015]);
    step_ok(&mut c, 4);
    // collision: glyph 1 (20 60 20 20 70) overlaps glyph 0 (F0 90 90 90 F0)
    assert_eq!(c.get_v(15), 1);
    // top-left pixel: set by glyph 0 only
    assert!(pixel(&c, 0, 0));
    // row 0, col 2: set by both, XOR turns it off
    assert!(!pixel(&c, 2, 0));
}

#[test]
fn draw_wraps_around_both_edges() {
    // (V0, V1) = (62, 30): glyph 0 wraps past the right and bottom edges
    let mut c = draw_prog(&[0x603E, 0x611E, 0xA000, 0xD015]);
    step_ok(&mut c, 4);
    // row 0 (y = 30): F0 sets columns 62, 63, 0, 1
    assert!(pixel(&c, 62, 30));
    assert!(pixel(&c, 63, 30));
    assert!(pixel(&c, 0, 30));
    assert!(pixel(&c, 1, 30));
    assert!(!pixel(&c, 2, 30));
    // row 2 (y = 0 after wrapping): 90 sets columns 62 and 1
    assert!(pixel(&c, 62, 0));
    assert!(!pixel(&c, 63, 0));
    assert!(!pixel(&c, 0, 0));
    assert!(pixel(&c, 1, 0));
}

#[test]
fn clear_screen_is_idempotent() {
    let mut c = draw_prog(&[0xA000, 0xD015, 0x00E0, 0x00E0]);
    step_ok(&mut c, 2);
    assert!(pixel(&c, 0, 0));
    step_ok(&mut c, 1);
    let after_one: Vec<bool> = c.get_display().to_vec();
    step_ok(&mut c, 1);
    let after_two: Vec<bool> = c.get_display().to_vec();
    assert_eq!(after_one, after_two);
    for p in after_one {
        assert!(!p);
    }
}

#[test]
fn clear_then_draw_sets_only_sprite_pixels() {
    // clear, then draw glyph 1 at (3, 4); only cells of the glyph may be lit
    let mut c = draw_prog(&[0x6003, 0x6104, 0xA005, 0x00E0, 0xD015]);
    step_ok(&mut c, 5);
    let rows: [u8; 5] = [0x20, 0x60, 0x20, 0x20, 0x70];
    for y in 0..32 {
        for x in 0..64 {
            let inside = (3..11).contains(&x) && (4..9).contains(&y);
            let expected = inside && (rows[y - 4] >> (7 - (x - 3))) & 1 == 1;
            assert_eq!(pixel(&c, x, y), expected);
        }
    }
}

#[test]
fn draw_zero_rows_changes_nothing() {
    let mut c = draw_prog(&[0xA000, 0xD010]);
    step_ok(&mut c, 2);
    assert_eq!(c.get_v(15), 0);
    for p in c.get_display() {
        assert!(!p);
    }
}
