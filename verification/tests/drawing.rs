use chip8::machine::Chip8;

fn load(program: &[u8]) -> Chip8 {
    let mut m = Chip8::new();
    let rom: Vec<u8> = program.to_vec();
    assert_eq!(m.load_rom(&rom), Ok(()));
    m
}

fn pixel(m: &Chip8, x: usize, y: usize) -> bool {
    m.display[y * 64 + x]
}

#[test]
fn draw_renders_sprite_bits() {
    // V0 = 4, V1 = 2, I = 0x208, draw 1 row; the data byte 0b10100001
    // follows the program.
    let mut m = load(&[0x60, 0x04, 0x61, 0x02, 0xA2, 0x08, 0xD0, 0x11, 0xA1, 0x00]);
    for _ in 0..4 {
        assert_eq!(m.tick(), Ok(None));
    }
    assert!(pixel(&m, 4, 2));
    assert!(!pixel(&m, 5, 2));
    assert!(pixel(&m, 6, 2));
    assert!(!pixel(&m, 7, 2));
    assert!(!pixel(&m, 10, 2));
    assert!(pixel(&m, 11, 2));
    assert_eq!(m.registers[0xF], 0);
}

#[test]
fn draw_after_clear_reports_no_collision() {
    // Clear screen, then draw a full byte: a blank framebuffer has
    // nothing to collide with.
    let mut m = load(&[
        0x00, 0xE0, 0x60, 0x00, 0x61, 0x00, 0xA2, 0x0A, 0xD0, 0x11, 0xFF, 0x00,
    ]);
    for _ in 0..5 {
        assert_eq!(m.tick(), Ok(None));
    }
    assert_eq!(m.registers[0xF], 0);
    assert!(pixel(&m, 0, 0));
    assert!(pixel(&m, 7, 0));
}

#[test]
fn drawing_twice_restores_framebuffer_and_collides() {
    // The same two-row sprite drawn twice at the same spot: the XOR
    // undoes itself and the second draw reports a collision.
    let mut m = load(&[
        0x60, 0x0A, 0x61, 0x05, 0xA2, 0x0C, 0xD0, 0x12, 0xD0, 0x12, 0x12, 0x0A, 0x3C, 0xC3,
    ]);
    for _ in 0..4 {
        assert_eq!(m.tick(), Ok(None));
    }
    assert!(pixel(&m, 12, 5));
    assert_eq!(m.registers[0xF], 0);
    assert_eq!(m.tick(), Ok(None));
    assert!(m.display.iter().all(|&p| !p));
    assert_eq!(m.registers[0xF], 1);
}

#[test]
fn sprite_wraps_columns_past_the_right_edge() {
    // x_start = 60 with an 8-bit row: columns 60..63, then 0..3.
    let mut m = load(&[0x60, 0x3C, 0x61, 0x00, 0xA2, 0x08, 0xD0, 0x11, 0xFF, 0x00]);
    for _ in 0..4 {
        assert_eq!(m.tick(), Ok(None));
    }
    for x in 60..64 {
        assert!(pixel(&m, x, 0));
    }
    for x in 0..4 {
        assert!(pixel(&m, x, 0));
    }
    for x in 4..60 {
        assert!(!pixel(&m, x, 0));
    }
    assert_eq!(m.registers[0xF], 0);
}

#[test]
fn sprite_wraps_rows_past_the_bottom_edge() {
    // y_start = 30 with 4 rows: rows 30, 31, then 0, 1.
    let mut m = load(&[
        0x60, 0x00, 0x61, 0x1E, 0xA2, 0x08, 0xD0, 0x14, 0x80, 0x80, 0x80, 0x80,
    ]);
    for _ in 0..4 {
        assert_eq!(m.tick(), Ok(None));
    }
    assert!(pixel(&m, 0, 30));
    assert!(pixel(&m, 0, 31));
    assert!(pixel(&m, 0, 0));
    assert!(pixel(&m, 0, 1));
    assert!(!pixel(&m, 0, 2));
}

#[test]
fn draw_with_sprite_outside_memory_faults() {
    // I = 0xFFF with two sprite rows runs past the end of memory.
    let mut m = load(&[0xAF, 0xFF, 0xD0, 0x12]);
    assert_eq!(m.tick(), Ok(None));
    assert_eq!(m.tick(), Err(chip8::Fault::MemOutOfBounds));
}

#[test]
fn clear_screen_blanks_every_pixel() {
    let mut m = load(&[0x60, 0x00, 0xA2, 0x06, 0xD0, 0x11, 0xFF, 0x00]);
    for _ in 0..3 {
        assert_eq!(m.tick(), Ok(None));
    }
    assert!(m.display.iter().any(|&p| p));
    m.opcode = 0x00E0;
    m.clear();
    assert!(m.display.iter().all(|&p| !p));
}

#[test]
fn draw_coordinates_reduce_modulo_grid() {
    // V0 = 68 starts at column 4; V1 = 33 starts at row 1.
    let mut m = load(&[0x60, 0x44, 0x61, 0x21, 0xA2, 0x08, 0xD0, 0x11, 0x80, 0x00]);
    for _ in 0..4 {
        assert_eq!(m.tick(), Ok(None));
    }
    assert!(pixel(&m, 4, 1));
    assert!(!pixel(&m, 5, 1));
}
