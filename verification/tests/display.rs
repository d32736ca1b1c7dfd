use chip8_core::{Emu, Fault, FaultKind, RunState, SCREEN_HEIGHT, SCREEN_SIZE, SCREEN_WIDTH};

fn machine_with(program: &[u8]) -> Emu {
    let mut emu = Emu::new();
    assert_eq!(emu.load_program(program), Ok(()));
    emu
}

fn steps(emu: &mut Emu, count: usize) {
    for _ in 0..count {
        assert_eq!(emu.step(), Ok(RunState::Running));
    }
}

fn lit(emu: &Emu) -> Vec<(usize, usize)> {
    let grid = emu.display_snapshot();
    let mut cells = Vec::new();
    for y in 0..SCREEN_HEIGHT {
        for x in 0..SCREEN_WIDTH {
            if grid[y * SCREEN_WIDTH + x] {
                cells.push((x, y));
            }
        }
    }
    cells
}

/// The cells of glyph `0` (`F0 90 90 90 F0`) with its corner at `(left, top)`.
fn glyph_zero(left: usize, top: usize) -> Vec<(usize, usize)> {
    let rows = [0xF0u8, 0x90, 0x90, 0x90, 0xF0];
    let mut cells = Vec::new();
    for (row, bits) in rows.iter().enumerate() {
        for col in 0..8 {
            if bits & (0x80 >> col) != 0 {
                cells.push(((left + col) % SCREEN_WIDTH, (top + row) % SCREEN_HEIGHT));
            }
        }
    }
    cells.sort_by_key(|(x, y)| (*y, *x));
    cells
}

#[test]
fn draw_puts_the_sprite_on_a_clear_display() {
    // V0 = 3, V1 = 2, I = glyph 0, draw 5 rows at (V0, V1).
    let mut emu = machine_with(&[0x60, 0x03, 0x61, 0x02, 0xA0, 0x00, 0xD0, 0x15]);
    steps(&mut emu, 4);
    assert_eq!(lit(&emu), glyph_zero(3, 2));
    assert_eq!(lit(&emu).len(), 14);
    assert_eq!(emu.registers()[0xF], 0);
    assert_eq!(emu.index_register(), 0);
    assert_eq!(emu.pc(), 0x208);
}

#[test]
fn draw_exact_cells_of_one_row() {
    // One row 0b1010_0001 stored behind the program, drawn at (0, 0).
    let mut emu = machine_with(&[0xA2, 0x04, 0xD0, 0x01, 0xA1]);
    steps(&mut emu, 2);
    assert_eq!(lit(&emu), vec![(0, 0), (2, 0), (7, 0)]);
}

#[test]
fn draw_twice_clears_and_reports_the_collision() {
    let mut emu = machine_with(&[0x60, 0x03, 0x61, 0x02, 0xA0, 0x00, 0xD0, 0x15, 0xD0, 0x15]);
    steps(&mut emu, 4);
    assert_eq!(emu.registers()[0xF], 0);
    assert!(!lit(&emu).is_empty());
    steps(&mut emu, 1);
    assert_eq!(emu.registers()[0xF], 1);
    assert!(lit(&emu).is_empty());
}

#[test]
fn draw_without_overlap_reports_no_collision() {
    // Glyph 0 at (0, 0), then glyph 1 at (8, 0).
    let mut emu = machine_with(&[
        0x60, 0x00, 0x61, 0x00, 0xA0, 0x00, 0xD0, 0x15, 0x60, 0x08, 0xA0, 0x05, 0xD0, 0x15,
    ]);
    steps(&mut emu, 7);
    assert_eq!(emu.registers()[0xF], 0);
    assert_eq!(lit(&emu).len(), 14 + 8);
}

#[test]
fn draw_with_partial_overlap_flips_and_reports() {
    // Glyph 0 at (0, 0), then glyph 0 at (3, 0): columns 3 of the first and 0 of the second meet.
    let mut emu = machine_with(&[0x60, 0x00, 0x61, 0x00, 0xA0, 0x00, 0xD0, 0x15, 0x60, 0x03, 0xD0, 0x15]);
    steps(&mut emu, 6);
    assert_eq!(emu.registers()[0xF], 1);
    let grid = emu.display_snapshot();
    assert!(!grid[3]);
    assert!(grid[0]);
    assert!(grid[4]);
    assert!(grid[6]);
    assert_eq!(lit(&emu).len(), 14 + 14 - 2 * 5);
}

#[test]
fn draw_wraps_round_both_edges() {
    // V0 = 62, V1 = 30
    let mut emu = machine_with(&[0x60, 0x3E, 0x61, 0x1E, 0xA0, 0x00, 0xD0, 0x15]);
    steps(&mut emu, 4);
    assert_eq!(lit(&emu), glyph_zero(62, 30));
    let grid = emu.display_snapshot();
    assert!(grid[30 * SCREEN_WIDTH + 62]);
    assert!(grid[30 * SCREEN_WIDTH + 63]);
    assert!(grid[30 * SCREEN_WIDTH]);
    assert!(grid[30 * SCREEN_WIDTH + 1]);
    assert!(grid[2 * SCREEN_WIDTH + 62]);
    assert!(grid[2 * SCREEN_WIDTH + 1]);
}

#[test]
fn draw_takes_coordinates_modulo_the_display() {
    // V0 = 64 + 3, V1 = 32 + 2 draws where (3, 2) draws.
    let mut emu = machine_with(&[0x60, 0x43, 0x61, 0x22, 0xA0, 0x00, 0xD0, 0x15]);
    steps(&mut emu, 4);
    assert_eq!(lit(&emu), glyph_zero(3, 2));
    let mut far = machine_with(&[0x60, 0xFF, 0x61, 0xFF, 0xA0, 0x00, 0xD0, 0x15]);
    steps(&mut far, 4);
    assert_eq!(lit(&far), glyph_zero(63, 31));
}

#[test]
fn draw_of_no_rows_changes_only_the_flag() {
    let mut emu = machine_with(&[0x6F, 0x05, 0xA0, 0x00, 0xD0, 0x10]);
    steps(&mut emu, 3);
    assert!(lit(&emu).is_empty());
    assert_eq!(emu.registers()[0xF], 0);
}

#[test]
fn draw_of_no_rows_reads_no_memory() {
    // I = 0xFFF + 0xFF is past the end of memory; no row is read.
    let mut emu = machine_with(&[0xAF, 0xFF, 0x60, 0xFF, 0xF0, 0x1E, 0xD0, 0x10]);
    steps(&mut emu, 4);
    assert_eq!(emu.index_register(), 0x10FE);
    assert!(lit(&emu).is_empty());
}

#[test]
fn draw_of_rows_past_the_end_of_memory_faults() {
    // I = 0xFFE: two rows fit, three do not.
    let mut fits = machine_with(&[0xAF, 0xFE, 0xD0, 0x02]);
    steps(&mut fits, 2);
    let mut emu = machine_with(&[0x60, 0x01, 0xAF, 0xFE, 0xD0, 0x03]);
    steps(&mut emu, 2);
    let fault = Fault { kind: FaultKind::MemoryOutOfBounds, address: 0x204, opcode: Some(0xD003) };
    assert_eq!(emu.step(), Err(fault));
    assert!(lit(&emu).is_empty());
    assert_eq!(emu.pc(), 0x204);
    assert_eq!(emu.registers()[0xF], 0);
}

#[test]
fn draw_of_fifteen_rows() {
    // Fifteen rows of 0xFF stored behind the program.
    let mut program = vec![0xA2, 0x04, 0xD0, 0x0F];
    program.extend_from_slice(&[0xFF; 15]);
    let mut emu = machine_with(&program);
    steps(&mut emu, 2);
    assert_eq!(lit(&emu).len(), 15 * 8);
    let grid = emu.display_snapshot();
    assert!(grid[14 * SCREEN_WIDTH + 7]);
    assert!(!grid[15 * SCREEN_WIDTH]);
    assert!(!grid[8]);
}

#[test]
fn clear_screen_switches_every_pixel_off() {
    let mut emu = machine_with(&[
        0x60, 0x3E, 0x61, 0x1E, 0xA0, 0x00, 0xD0, 0x15, 0xA0, 0x05, 0xD1, 0x05, 0x00, 0xE0,
    ]);
    steps(&mut emu, 6);
    assert!(!lit(&emu).is_empty());
    let flag = emu.registers()[0xF];
    steps(&mut emu, 1);
    assert!(emu.display_snapshot().iter().all(|pixel| !*pixel));
    assert_eq!(emu.display_snapshot().len(), SCREEN_SIZE);
    assert_eq!(emu.registers()[0xF], flag);
    assert_eq!(emu.pc(), 0x20E);
}

#[test]
fn display_snapshot_is_row_major() {
    // One pixel at (5, 3).
    let mut emu = machine_with(&[0x60, 0x05, 0x61, 0x03, 0xA2, 0x08, 0xD0, 0x11, 0x80]);
    steps(&mut emu, 4);
    let grid = emu.display_snapshot();
    assert!(grid[3 * 64 + 5]);
    assert_eq!(grid.iter().filter(|pixel| **pixel).count(), 1);
}
