use chip8::display::{clear_frame, draw_sprite, glyph_of, pixel_at, render_spans, set_pixel};
use chip8::{paint, Effect, Fault, Span, C8R};

fn with_program(rom: &[u8]) -> C8R {
    let mut machine = C8R::new();
    assert_eq!(machine.load_rom(rom), Ok(()));
    machine
}

fn quiet_steps(machine: &mut C8R, steps: u32) {
    let mut done: u32 = 0;
    while done < steps {
        assert_eq!(machine.step(0, None), Ok(Effect::Quiet));
        done += 1;
    }
}

fn lit_pixels(machine: &C8R) -> Vec<(u8, u8)> {
    let mut lit: Vec<(u8, u8)> = Vec::new();
    let mut row: u8 = 0;
    while row < 32 {
        let mut col: u8 = 0;
        while col < 64 {
            if machine.pixel(col, row) {
                lit.push((col, row));
            }
            col += 1;
        }
        row += 1;
    }
    lit
}

fn span(column: u16, line: u16, glyphs: &[u8]) -> Span {
    Span { column, line, glyphs: glyphs.to_vec() }
}

#[test]
fn a_fresh_display_is_dark() {
    let machine = C8R::new();
    assert_eq!(lit_pixels(&machine), vec![]);
}

#[test]
fn a_sprite_row_lights_the_pixels_under_its_set_bits() {
    // One row, 0xA5 = 1010 0101, at (0, 0).
    let mut machine = with_program(&[0xA2, 0x04, 0xD0, 0x11, 0xA5]);
    quiet_steps(&mut machine, 1);
    let effect = machine.cpu_step();
    assert_eq!(lit_pixels(&machine), vec![(0, 0), (2, 0), (5, 0), (7, 0)]);
    assert_eq!(machine.peek(0x50), 0xA5);
    assert_eq!(machine.v(0xF), 0);
    assert_eq!(machine.pc(), 0x204);
    assert_eq!(effect, Ok(Effect::Drawn(vec![span(1, 1, &[2, 0, 2, 0, 0, 2, 0, 2])])));
}

#[test]
fn the_zero_glyph_is_drawn_from_the_font() {
    // V0 = 0, I = glyph of V0, V1 = 8, V2 = 4, draw five rows at (8, 4).
    let mut machine = with_program(&[0xF0, 0x29, 0x61, 0x08, 0x62, 0x04, 0xD1, 0x25]);
    quiet_steps(&mut machine, 3);
    let effect = machine.cpu_step();
    assert_eq!(
        lit_pixels(&machine),
        vec![
            (8, 4),
            (9, 4),
            (10, 4),
            (11, 4),
            (8, 5),
            (11, 5),
            (8, 6),
            (11, 6),
            (8, 7),
            (11, 7),
            (8, 8),
            (9, 8),
            (10, 8),
            (11, 8)
        ]
    );
    assert_eq!(machine.peek(0x50 + 4 * 8 + 1), 0xF0);
    assert_eq!(machine.peek(0x50 + 5 * 8 + 1), 0x90);
    assert_eq!(machine.v(0xF), 0);
    assert_eq!(
        effect,
        Ok(Effect::Drawn(vec![
            span(9, 3, &[3, 2, 2, 3, 0, 0, 0, 0]),
            span(9, 3, &[3, 2, 2, 3, 0, 0, 0, 0]),
            span(9, 4, &[3, 0, 0, 3, 0, 0, 0, 0]),
            span(9, 4, &[3, 0, 0, 3, 0, 0, 0, 0]),
            span(9, 5, &[2, 2, 2, 2, 0, 0, 0, 0]),
        ]))
    );
}

#[test]
fn a_sprite_inside_a_byte_pair_is_drawn_across_both_bytes() {
    // V0 = 5: the sprite row 0xFF covers columns 5 to 12 of row 5.
    let mut machine = with_program(&[0x60, 0x05, 0xA2, 0x06, 0xD0, 0x01, 0xFF]);
    quiet_steps(&mut machine, 2);
    assert!(matches!(machine.cpu_step(), Ok(Effect::Drawn(_))));
    assert_eq!(machine.peek(0x50 + 5 * 8), 0x07);
    assert_eq!(machine.peek(0x50 + 5 * 8 + 1), 0xF8);
    assert_eq!(machine.peek(0x50 + 5 * 8 + 2), 0x00);
    assert_eq!(
        lit_pixels(&machine),
        vec![(5, 5), (6, 5), (7, 5), (8, 5), (9, 5), (10, 5), (11, 5), (12, 5)]
    );
}

#[test]
fn the_corner_wraps_but_the_sprite_is_cut_at_the_edges() {
    // V0 = 62 + 64, V1 = 31 + 32: the corner is (62, 31); of the two rows of
    // 0xFF only the first, and of its eight pixels only two, are drawn.
    let rom: [u8; 10] = [0x60, 126, 0x61, 63, 0xA2, 0x08, 0xD0, 0x12, 0xFF, 0xFF];
    let mut machine = with_program(&rom);
    quiet_steps(&mut machine, 3);
    let effect = machine.cpu_step();
    assert_eq!(lit_pixels(&machine), vec![(62, 31), (63, 31)]);
    assert_eq!(machine.peek(0x14F), 0x03);
    assert_eq!(machine.peek(0x150), 0);
    assert_eq!(machine.peek(0x50), 0);
    assert_eq!(machine.v(0xF), 0);
    assert_eq!(effect, Ok(Effect::Drawn(vec![span(63, 16, &[1, 1])])));
}

#[test]
fn a_sprite_of_no_rows_draws_nothing() {
    let mut machine = with_program(&[0xA2, 0x04, 0xD0, 0x10, 0xFF]);
    quiet_steps(&mut machine, 1);
    assert_eq!(machine.cpu_step(), Ok(Effect::Drawn(vec![])));
    assert_eq!(lit_pixels(&machine), vec![]);
    assert_eq!(machine.v(0xF), 0);
    assert_eq!(machine.pc(), 0x204);
}

#[test]
fn drawing_over_a_lit_pixel_turns_it_off_and_sets_the_flag() {
    // 0xC0 lights (0,0) and (1,0); 0x60 then flips (1,0) and (2,0).
    let rom: [u8; 10] = [0xA2, 0x08, 0xD0, 0x11, 0xA2, 0x09, 0xD0, 0x11, 0xC0, 0x60];
    let mut machine = with_program(&rom);
    quiet_steps(&mut machine, 1);
    assert!(matches!(machine.cpu_step(), Ok(Effect::Drawn(_))));
    assert_eq!(machine.v(0xF), 0);
    quiet_steps(&mut machine, 1);
    let effect = machine.cpu_step();
    assert_eq!(lit_pixels(&machine), vec![(0, 0), (2, 0)]);
    assert_eq!(machine.v(0xF), 1);
    assert_eq!(effect, Ok(Effect::Drawn(vec![span(1, 1, &[2, 0, 2, 0, 0, 0, 0, 0])])));
}

#[test]
fn drawing_beside_lit_pixels_sets_no_flag() {
    // 0xC0 lights (0,0) and (1,0); 0x30 lights (2,0) and (3,0).
    let rom: [u8; 10] = [0xA2, 0x08, 0xD0, 0x11, 0xA2, 0x09, 0xD0, 0x11, 0xC0, 0x30];
    let mut machine = with_program(&rom);
    quiet_steps(&mut machine, 1);
    assert!(matches!(machine.cpu_step(), Ok(Effect::Drawn(_))));
    quiet_steps(&mut machine, 1);
    assert!(matches!(machine.cpu_step(), Ok(Effect::Drawn(_))));
    assert_eq!(lit_pixels(&machine), vec![(0, 0), (1, 0), (2, 0), (3, 0)]);
    assert_eq!(machine.v(0xF), 0);
}

#[test]
fn the_flag_of_an_earlier_draw_is_reset() {
    let rom: [u8; 12] = [0xA2, 0x0A, 0xD0, 0x11, 0xD0, 0x11, 0x61, 0x08, 0xD1, 0x01, 0xC0, 0x00];
    let mut machine = with_program(&rom);
    quiet_steps(&mut machine, 1);
    assert!(matches!(machine.cpu_step(), Ok(Effect::Drawn(_))));
    assert!(matches!(machine.cpu_step(), Ok(Effect::Drawn(_))));
    assert_eq!(machine.v(0xF), 1);
    quiet_steps(&mut machine, 1);
    assert!(matches!(machine.cpu_step(), Ok(Effect::Drawn(_))));
    assert_eq!(machine.v(0xF), 0);
}

#[test]
fn the_second_of_two_equal_draws_undoes_the_first() {
    // Light (3,2); then draw the 2-row sprite 0xF0, 0x90 at (0, 2) twice over.
    let rom: [u8; 20] = [
        0x60, 0x03, 0x61, 0x02, 0xA2, 0x12, 0xD0, 0x11, 0x60, 0x00, 0xA2, 0x10, 0xD0, 0x12, 0xD0,
        0x12, 0xF0, 0x90, 0x80, 0x00,
    ];
    let mut machine = with_program(&rom);
    quiet_steps(&mut machine, 3);
    assert!(matches!(machine.cpu_step(), Ok(Effect::Drawn(_))));
    quiet_steps(&mut machine, 2);
    assert!(matches!(machine.cpu_step(), Ok(Effect::Drawn(_))));
    assert_eq!(lit_pixels(&machine), vec![(0, 2), (1, 2), (2, 2), (0, 3), (3, 3)]);
    assert_eq!(machine.v(0xF), 1);
    assert!(matches!(machine.cpu_step(), Ok(Effect::Drawn(_))));
    assert_eq!(lit_pixels(&machine), vec![(3, 2)]);
    // The second draw turned off the five pixels that the first had turned on.
    assert_eq!(machine.v(0xF), 1);
}

#[test]
fn the_second_draw_sets_no_flag_where_every_sprite_pixel_was_lit_before() {
    // Light (0,0) and (1,0); then draw 0xC0 there twice: the first draw turns
    // both off, the second turns both on again.
    let mut machine = with_program(&[0xA2, 0x08, 0xD0, 0x11, 0xD0, 0x11, 0xD0, 0x11, 0xC0]);
    quiet_steps(&mut machine, 1);
    assert!(matches!(machine.cpu_step(), Ok(Effect::Drawn(_))));
    assert_eq!(machine.v(0xF), 0);
    assert_eq!(lit_pixels(&machine), vec![(0, 0), (1, 0)]);
    assert!(matches!(machine.cpu_step(), Ok(Effect::Drawn(_))));
    assert_eq!(machine.v(0xF), 1);
    assert_eq!(lit_pixels(&machine), vec![]);
    assert!(matches!(machine.cpu_step(), Ok(Effect::Drawn(_))));
    assert_eq!(machine.v(0xF), 0);
    assert_eq!(lit_pixels(&machine), vec![(0, 0), (1, 0)]);
    assert_eq!(machine.pc(), 0x208);
}

#[test]
fn a_sprite_past_the_end_of_memory_is_out_of_range() {
    let mut machine = with_program(&[0xAF, 0xFF, 0xD0, 0x12]);
    quiet_steps(&mut machine, 1);
    assert_eq!(machine.cpu_step(), Err(Fault::OutOfRange { at: 0x202 }));
    assert_eq!(machine.pc(), 0x202);
    assert_eq!(machine.v(0xF), 0);
    assert_eq!(lit_pixels(&machine), vec![]);
    let mut machine = with_program(&[0xAF, 0xFF, 0xD0, 0x11]);
    quiet_steps(&mut machine, 1);
    assert_eq!(machine.cpu_step(), Ok(Effect::Drawn(vec![span(1, 1, &[0; 8])])));
}

#[test]
fn a_sprite_cut_at_the_bottom_is_fetched_only_as_far_as_drawn() {
    // Corner row 31: one row is drawn, so one byte is fetched, at 0xFFF.
    let mut machine = with_program(&[0x61, 31, 0xAF, 0xFF, 0xD0, 0x1F]);
    quiet_steps(&mut machine, 2);
    assert_eq!(machine.cpu_step(), Ok(Effect::Drawn(vec![span(1, 16, &[0; 8])])));
}

#[test]
fn clearing_turns_every_pixel_off_and_keeps_the_registers() {
    let rom: [u8; 14] =
        [0x63, 0x2A, 0xA2, 0x0C, 0xD0, 0x02, 0x22, 0x0A, 0x00, 0x00, 0x00, 0xE0, 0xFF, 0x81];
    let mut machine = with_program(&rom);
    machine.d_timer = 9;
    machine.s_timer = 8;
    machine.key = 7;
    quiet_steps(&mut machine, 2);
    assert!(matches!(machine.cpu_step(), Ok(Effect::Drawn(_))));
    quiet_steps(&mut machine, 1);
    assert_eq!(lit_pixels(&machine).len(), 10);
    assert_eq!(machine.cpu_step(), Ok(Effect::Cleared));
    assert_eq!(lit_pixels(&machine), vec![]);
    let mut a: u16 = 0x50;
    while a < 0x150 {
        assert_eq!(machine.peek(a), 0);
        a += 1;
    }
    assert_eq!(machine.v(3), 0x2A);
    assert_eq!(machine.v(0xF), 0);
    assert_eq!(machine.i(), 0x20C);
    assert_eq!(machine.sp(), 0x152);
    assert_eq!(machine.peek(0x152), 0x02);
    assert_eq!(machine.peek(0x153), 0x08);
    assert_eq!(machine.peek(0x4F), 0x80);
    assert_eq!(machine.d_timer, 9);
    assert_eq!(machine.s_timer, 8);
    assert_eq!(machine.key, 7);
    assert_eq!(machine.pc(), 0x20C);
}

#[test]
fn the_stack_grows_from_right_behind_the_display() {
    let mut machine = with_program(&[0x22, 0x02, 0x00, 0xE0]);
    quiet_steps(&mut machine, 1);
    assert_eq!(machine.cpu_step(), Ok(Effect::Cleared));
    assert_eq!(machine.peek(0x14F), 0);
    assert_eq!(machine.peek(0x152), 0x02);
    assert_eq!(machine.peek(0x153), 0x02);
}

#[test]
fn quiet_effects_paint_as_nothing() {
    assert_eq!(paint(&Effect::Quiet), "");
    assert_eq!(paint(&Effect::AwaitKey), "");
    assert_eq!(paint(&Effect::Drawn(vec![])), "");
}

#[test]
fn clearing_paints_as_the_clear_sequence() {
    assert_eq!(paint(&Effect::Cleared), "\x1b[2J");
}

#[test]
fn a_span_paints_as_a_cursor_move_and_its_glyphs() {
    let effect = Effect::Drawn(vec![span(1, 1, &[0, 1, 2, 3])]);
    assert_eq!(paint(&effect), "\x1b[1;1H \u{2584}\u{2580}\u{2588}");
    let effect = Effect::Drawn(vec![span(64, 16, &[3])]);
    assert_eq!(paint(&effect), "\x1b[16;64H\u{2588}");
    let effect = Effect::Drawn(vec![span(10, 9, &[])]);
    assert_eq!(paint(&effect), "\x1b[9;10H");
    let effect = Effect::Drawn(vec![span(65535, 12345, &[2])]);
    assert_eq!(paint(&effect), "\x1b[12345;65535H\u{2580}");
}

#[test]
fn spans_paint_one_after_the_other() {
    let effect = Effect::Drawn(vec![span(9, 3, &[3, 3]), span(9, 4, &[2, 0, 1])]);
    assert_eq!(paint(&effect), "\x1b[3;9H\u{2588}\u{2588}\x1b[4;9H\u{2580} \u{2584}");
}

#[test]
fn a_value_that_names_no_glyph_paints_as_a_blank() {
    let effect = Effect::Drawn(vec![span(2, 3, &[4, 255])]);
    assert_eq!(paint(&effect), "\x1b[3;2H  ");
}

#[test]
fn a_drawn_sprite_paints_in_half_blocks() {
    // Rows 0xC0 and 0x40 at (0, 0): cells (top, bottom) are (on, off),
    // (on, on), then off.
    let mut machine = with_program(&[0xA2, 0x04, 0xD0, 0x12, 0xC0, 0x40]);
    quiet_steps(&mut machine, 1);
    let effect = machine.cpu_step().unwrap();
    let line = "\x1b[1;1H\u{2580}\u{2588}      ";
    assert_eq!(paint(&effect), format!("{}{}", line, line));
}

#[test]
fn pixels_are_packed_from_the_top_bit_of_each_byte() {
    let mut memory = [0u8; 4096];
    set_pixel(&mut memory, 0, 0, true);
    assert_eq!(memory[0x50], 0x80);
    set_pixel(&mut memory, 7, 0, true);
    assert_eq!(memory[0x50], 0x81);
    set_pixel(&mut memory, 9, 1, true);
    assert_eq!(memory[0x59], 0x40);
    set_pixel(&mut memory, 63, 31, true);
    assert_eq!(memory[0x14F], 0x01);
    assert!(pixel_at(&memory, 0, 0));
    assert!(!pixel_at(&memory, 1, 0));
    assert!(pixel_at(&memory, 7, 0));
    assert!(pixel_at(&memory, 9, 1));
    assert!(!pixel_at(&memory, 9, 0));
    assert!(pixel_at(&memory, 63, 31));
    set_pixel(&mut memory, 0, 0, false);
    assert_eq!(memory[0x50], 0x01);
    set_pixel(&mut memory, 0, 0, false);
    assert_eq!(memory[0x50], 0x01);
    set_pixel(&mut memory, 7, 0, true);
    assert_eq!(memory[0x50], 0x01);
    assert_eq!(memory[0x4F], 0);
    assert_eq!(memory[0x150], 0);
}

#[test]
fn a_cell_glyph_comes_from_its_two_pixels() {
    assert_eq!(glyph_of(false, false), 0);
    assert_eq!(glyph_of(false, true), 1);
    assert_eq!(glyph_of(true, false), 2);
    assert_eq!(glyph_of(true, true), 3);
}

#[test]
fn spans_pair_each_row_with_its_neighbour() {
    let mut memory = [0u8; 4096];
    set_pixel(&mut memory, 4, 2, true);
    set_pixel(&mut memory, 5, 3, true);
    set_pixel(&mut memory, 6, 2, true);
    set_pixel(&mut memory, 6, 3, true);
    let spans = render_spans(&memory, 4, 2, 4, 2);
    assert_eq!(spans, vec![span(5, 2, &[2, 1, 3, 0]), span(5, 2, &[2, 1, 3, 0])]);
    let spans = render_spans(&memory, 4, 3, 3, 2);
    assert_eq!(spans, vec![span(5, 2, &[2, 1, 3]), span(5, 3, &[0, 0, 0])]);
    assert_eq!(render_spans(&memory, 0, 0, 0, 0), vec![]);
}

#[test]
fn clearing_the_frame_leaves_the_rest_of_memory() {
    let mut memory = [0xFFu8; 4096];
    clear_frame(&mut memory);
    assert_eq!(memory[0x4F], 0xFF);
    assert_eq!(memory[0x50], 0);
    assert_eq!(memory[0x14F], 0);
    assert_eq!(memory[0x150], 0xFF);
    assert_eq!(memory.iter().filter(|byte| **byte == 0).count(), 256);
}

#[test]
fn a_sprite_is_drawn_from_wherever_the_index_points() {
    let mut memory = [0u8; 4096];
    memory[0x300] = 0x3C;
    memory[0x301] = 0xC3;
    assert!(!draw_sprite(&mut memory, 0x300, 60, 30, 2));
    assert_eq!(memory[0x50 + 30 * 8 + 7], 0x03);
    assert_eq!(memory[0x50 + 31 * 8 + 7], 0x0C);
    assert!(!draw_sprite(&mut memory, 0x301, 60, 30, 1));
    assert_eq!(memory[0x50 + 30 * 8 + 7], 0x0F);
    assert!(draw_sprite(&mut memory, 0x300, 60, 30, 1));
    assert_eq!(memory[0x50 + 30 * 8 + 7], 0x0C);
}
