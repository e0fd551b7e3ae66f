use vga_console::vga::{
    sanitize, ColourCode, VgaChar, VgaColour, Writer, BLANK, LINE_FEED, UNPRINTABLE, VGA_HEIGHT,
    VGA_WIDTH,
};

fn default_colour() -> ColourCode {
    ColourCode::new(VgaColour::White, VgaColour::Black)
}

fn blank_cell(colour: ColourCode) -> VgaChar {
    VgaChar {
        ascii_character: BLANK,
        colour,
    }
}

#[test]
fn colour_code_packs_nibbles() {
    assert_eq!(ColourCode::new(VgaColour::White, VgaColour::Black).0, 0x0f);
    assert_eq!(ColourCode::new(VgaColour::Black, VgaColour::White).0, 0xf0);
    assert_eq!(
        ColourCode::new(VgaColour::LightGreen, VgaColour::Blue).0,
        0x1a
    );
    assert_eq!(ColourCode::new(VgaColour::Yellow, VgaColour::Red).0, 0x4e);
}

#[test]
fn colour_palette_indices() {
    assert_eq!(VgaColour::Black.code(), 0);
    assert_eq!(VgaColour::Blue.code(), 1);
    assert_eq!(VgaColour::LightGrey.code(), 7);
    assert_eq!(VgaColour::DarkGrey.code(), 8);
    assert_eq!(VgaColour::White.code(), 15);
}

#[test]
fn sanitize_is_total_over_all_bytes() {
    for b in 0..=255u8 {
        let r = sanitize(b);
        if (0x20..=0x7e).contains(&b) || b == LINE_FEED {
            assert_eq!(r, b);
        } else {
            assert_eq!(r, UNPRINTABLE);
        }
    }
}

#[test]
fn fresh_writer_is_blank() {
    let colour = default_colour();
    let w = Writer::new(colour);
    assert_eq!(w.column(), 0);
    assert_eq!(w.colour(), colour);
    for r in 0..VGA_HEIGHT {
        for c in 0..VGA_WIDTH {
            assert_eq!(w.char_at(r, c), blank_cell(colour));
        }
    }
}

#[test]
fn writes_hi_at_row_start() {
    let colour = default_colour();
    let mut w = Writer::new(colour);
    w.write_string("Hi");
    assert_eq!(
        w.char_at(VGA_HEIGHT - 1, 0),
        VgaChar {
            ascii_character: b'H',
            colour
        }
    );
    assert_eq!(
        w.char_at(VGA_HEIGHT - 1, 1),
        VgaChar {
            ascii_character: b'i',
            colour
        }
    );
    assert_eq!(w.column(), 2);
}

#[test]
fn substitutes_placeholder_for_control_byte() {
    let colour = default_colour();
    let mut w = Writer::new(colour);
    w.write_string("\u{1}");
    assert_eq!(
        w.char_at(VGA_HEIGHT - 1, 0),
        VgaChar {
            ascii_character: UNPRINTABLE,
            colour
        }
    );
    assert_eq!(w.column(), 1);
}

#[test]
fn substitutes_placeholder_for_multibyte_char() {
    let colour = default_colour();
    let mut w = Writer::new(colour);
    // One two-byte UTF-8 character: both bytes are unprintable, so the
    // sanitizer writes the placeholder glyph twice.
    w.write_string("\u{e9}");
    assert_eq!(w.char_at(VGA_HEIGHT - 1, 0).ascii_character, UNPRINTABLE);
    assert_eq!(w.char_at(VGA_HEIGHT - 1, 1).ascii_character, UNPRINTABLE);
    assert_eq!(w.column(), 2);
}

#[test]
fn write_byte_keeps_raw_glyph() {
    let colour = default_colour();
    let mut w = Writer::new(colour);
    // The raw glyph path bypasses the string-level sanitization.
    w.write_byte(0x01);
    assert_eq!(w.char_at(VGA_HEIGHT - 1, 0).ascii_character, 0x01);
    assert_eq!(w.column(), 1);
}

#[test]
fn filling_a_row_plus_one_byte_scrolls_once() {
    let colour = default_colour();
    let mut w = Writer::new(colour);
    let mut line = String::new();
    for i in 0..VGA_WIDTH {
        line.push((b'0' + (i % 10) as u8) as char);
    }
    w.write_string(&line);
    assert_eq!(w.column(), VGA_WIDTH);
    w.write_string("Z");
    // Exactly one scroll: the full line moved up one row ...
    for c in 0..VGA_WIDTH {
        assert_eq!(
            w.char_at(VGA_HEIGHT - 2, c).ascii_character,
            b'0' + (c % 10) as u8
        );
    }
    // ... and the bottom row is blank except the wrapped byte at column 0.
    assert_eq!(w.char_at(VGA_HEIGHT - 1, 0).ascii_character, b'Z');
    for c in 1..VGA_WIDTH {
        assert_eq!(w.char_at(VGA_HEIGHT - 1, c), blank_cell(colour));
    }
    assert_eq!(w.column(), 1);
}

#[test]
fn line_feed_scrolls_from_any_column() {
    let colour = default_colour();
    let mut w = Writer::new(colour);
    w.write_string("ab");
    w.write_byte(LINE_FEED);
    assert_eq!(w.column(), 0);
    assert_eq!(w.char_at(VGA_HEIGHT - 2, 0).ascii_character, b'a');
    assert_eq!(w.char_at(VGA_HEIGHT - 2, 1).ascii_character, b'b');
    for c in 0..VGA_WIDTH {
        assert_eq!(w.char_at(VGA_HEIGHT - 1, c), blank_cell(colour));
    }
    // A line feed at column 0 scrolls as well, even though the row is empty.
    w.write_byte(LINE_FEED);
    assert_eq!(w.column(), 0);
    assert_eq!(w.char_at(VGA_HEIGHT - 3, 0).ascii_character, b'a');
    assert_eq!(w.char_at(VGA_HEIGHT - 2, 0), blank_cell(colour));
}

#[test]
fn scroll_moves_rows_up_and_discards_top() {
    let colour = default_colour();
    let mut w = Writer::new(colour);
    // Stack VGA_HEIGHT distinct lines so every row holds its line's tag.
    for i in 0..VGA_HEIGHT {
        let tag = (b'A' + (i % 26) as u8) as char;
        let mut line = String::new();
        line.push(tag);
        line.push('\n');
        w.write_string(&line);
    }
    // Row r now holds the tag of line r + 1 (line 0 already scrolled off),
    // and the bottom row is blank after the last line feed.
    for r in 0..VGA_HEIGHT - 1 {
        assert_eq!(w.char_at(r, 0).ascii_character, b'A' + ((r + 1) % 26) as u8);
    }
    let top_before = w.char_at(0, 0);
    let second_before = w.char_at(1, 0);
    w.shift_lines_up();
    // Every row took the previous content of the row below it.
    assert_eq!(w.char_at(0, 0), second_before);
    for r in 0..VGA_HEIGHT - 2 {
        assert_eq!(w.char_at(r, 0).ascii_character, b'A' + ((r + 2) % 26) as u8);
    }
    // The two bottom rows are blank: the previous bottom row moved up and
    // the new bottom row was blanked by the scroll. The old top row is gone.
    for c in 0..VGA_WIDTH {
        assert_eq!(w.char_at(VGA_HEIGHT - 2, c), blank_cell(colour));
        assert_eq!(w.char_at(VGA_HEIGHT - 1, c), blank_cell(colour));
    }
    for r in 0..VGA_HEIGHT {
        for c in 0..VGA_WIDTH {
            if w.char_at(r, c) == top_before && top_before.ascii_character != BLANK {
                panic!("discarded top row content still present");
            }
        }
    }
}

#[test]
fn clear_screen_blanks_everything() {
    let colour = default_colour();
    let mut w = Writer::new(colour);
    w.write_string("some history\nmore text");
    w.clear_screen();
    assert_eq!(w.column(), 0);
    for r in 0..VGA_HEIGHT {
        for c in 0..VGA_WIDTH {
            assert_eq!(w.char_at(r, c), blank_cell(colour));
        }
    }
}

#[test]
fn clear_screen_is_idempotent() {
    let colour = default_colour();
    let mut w = Writer::new(colour);
    w.write_string("content\nto clear");
    w.clear_screen();
    let mut once: Vec<VgaChar> = Vec::new();
    for r in 0..VGA_HEIGHT {
        for c in 0..VGA_WIDTH {
            once.push(w.char_at(r, c));
        }
    }
    let column_once = w.column();
    w.clear_screen();
    let mut twice: Vec<VgaChar> = Vec::new();
    for r in 0..VGA_HEIGHT {
        for c in 0..VGA_WIDTH {
            twice.push(w.char_at(r, c));
        }
    }
    assert_eq!(once, twice);
    assert_eq!(column_once, w.column());
}

#[test]
fn clear_line_keeps_history() {
    let colour = default_colour();
    let mut w = Writer::new(colour);
    w.write_string("history\n");
    w.write_string("input");
    w.clear_line();
    assert_eq!(w.column(), 0);
    for c in 0..VGA_WIDTH {
        assert_eq!(w.char_at(VGA_HEIGHT - 1, c), blank_cell(colour));
    }
    assert_eq!(w.char_at(VGA_HEIGHT - 2, 0).ascii_character, b'h');
    assert_eq!(w.char_at(VGA_HEIGHT - 2, 6).ascii_character, b'y');
}

#[test]
fn clear_char_erases_last_glyph() {
    let colour = default_colour();
    let mut w = Writer::new(colour);
    w.write_string("ab");
    w.clear_char();
    assert_eq!(w.column(), 1);
    assert_eq!(w.char_at(VGA_HEIGHT - 1, 0).ascii_character, b'a');
    assert_eq!(w.char_at(VGA_HEIGHT - 1, 1), blank_cell(colour));
}

#[test]
fn clear_char_at_row_start_is_noop() {
    let colour = default_colour();
    let mut w = Writer::new(colour);
    w.write_string("x\n");
    assert_eq!(w.column(), 0);
    w.clear_char();
    assert_eq!(w.column(), 0);
    assert_eq!(w.char_at(VGA_HEIGHT - 2, 0).ascii_character, b'x');
}

#[test]
fn every_byte_advances_exactly_one_step() {
    let colour = default_colour();
    let mut w = Writer::new(colour);
    let mut cells_written = 0usize;
    for b in 0..=255u8 {
        let col_before = w.column();
        if b < 0x80 {
            let s = (b as char).to_string();
            w.write_string(&s);
        } else {
            // Not valid UTF-8 on its own; drive the sanitizer directly.
            w.write_byte(sanitize(b));
        }
        if b == LINE_FEED {
            assert_eq!(w.column(), 0);
        } else if col_before < VGA_WIDTH {
            assert_eq!(w.column(), col_before + 1);
            cells_written += 1;
        } else {
            assert_eq!(w.column(), 1);
            cells_written += 1;
        }
    }
    assert_eq!(cells_written, 255);
}
