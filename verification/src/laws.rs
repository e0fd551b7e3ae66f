//! Laws of the writer state machine, stated over the abstract console state
//! and proved from the transition functions that the writer's contracts use.

use vstd::prelude::*;

use crate::vga::{
    blank_char, blank_row, clear_screen_spec, is_printable, lemma_write_bytes_snoc, sanitize_spec, scroll_spec,
    scrolled, wf_state, write_byte_spec, write_bytes_spec, written, ColourCode, ConsoleState,
    VgaChar, LINE_FEED, VGA_HEIGHT, VGA_WIDTH,
};

verus! {

/// One sanitized write on an unfilled row leaves the sanitized glyph, in the
/// current colour, at the prior insertion column, and advances the column by
/// one; a line feed writes no cell and only scrolls.
pub proof fn lemma_write_byte_cell(s: ConsoleState, colour: ColourCode, b: u8)
    requires
        wf_state(s),
        s.column < VGA_WIDTH,
    ensures
        b != LINE_FEED ==> write_byte_spec(s, colour, sanitize_spec(b)).grid[VGA_HEIGHT - 1][
            s.column as int] == (VgaChar { ascii_character: sanitize_spec(b), colour }),
        b != LINE_FEED ==> write_byte_spec(s, colour, sanitize_spec(b)).column == s.column + 1,
        b == LINE_FEED ==> write_byte_spec(s, colour, sanitize_spec(b)) == scroll_spec(s, colour),
{
}

/// Clearing the screen twice in succession yields the same state as clearing
/// it once.
pub proof fn lemma_clear_screen_idempotent(s: ConsoleState, colour: ColourCode)
    ensures
        clear_screen_spec(clear_screen_spec(s, colour), colour) == clear_screen_spec(s, colour),
{
}

/// After a scroll step every row holds the previous content of the row below
/// it, and the bottom row is all blank; nothing takes the previous top row's
/// content, so it is discarded.
pub proof fn lemma_scroll_moves_rows(g: Seq<Seq<VgaChar>>, colour: ColourCode)
    ensures
        forall|r: int| 1 <= r < VGA_HEIGHT ==> scrolled(g, colour)[r - 1] == g[r],
        scrolled(g, colour)[VGA_HEIGHT - 1] == blank_row(colour),
{
}

/// A line feed always scrolls, whatever the current column: the grid moves
/// exactly as in the wrap case's scroll step, and the column resets to zero.
pub proof fn lemma_line_feed_always_scrolls(s: ConsoleState, colour: ColourCode)
    ensures
        write_byte_spec(s, colour, LINE_FEED) == scroll_spec(s, colour),
        write_byte_spec(s, colour, LINE_FEED).column == 0,
{
}

/// For every byte value the sanitized write takes exactly one step: a line
/// feed scrolls, and any other byte mutates exactly one cell, after at most
/// one wrap scroll. No byte is ever rejected.
pub proof fn lemma_sanitize_totality(s: ConsoleState, colour: ColourCode, b: u8)
    requires
        wf_state(s),
    ensures
        wf_state(write_byte_spec(s, colour, sanitize_spec(b))),
        b == LINE_FEED ==> write_byte_spec(s, colour, sanitize_spec(b)) == scroll_spec(s, colour),
        b != LINE_FEED && s.column < VGA_WIDTH ==> write_byte_spec(s, colour, sanitize_spec(b))
            == (ConsoleState {
            grid: written(
                s.grid,
                VGA_HEIGHT - 1,
                s.column as int,
                VgaChar { ascii_character: sanitize_spec(b), colour },
            ),
            column: (s.column + 1) as nat,
        }),
        b != LINE_FEED && s.column == VGA_WIDTH ==> write_byte_spec(s, colour, sanitize_spec(b))
            == (ConsoleState {
            grid: written(
                scrolled(s.grid, colour),
                VGA_HEIGHT - 1,
                0,
                VgaChar { ascii_character: sanitize_spec(b), colour },
            ),
            column: 1nat,
        }),
{
}

/// Writing printable bytes that fit on the active row never scrolls: the
/// rows above stay as they are, the bytes land one after another from the
/// starting column, the rest of the bottom row is untouched, and the column
/// advances by the number of bytes written.
pub proof fn lemma_fill_row(s: ConsoleState, colour: ColourCode, bs: Seq<u8>)
    requires
        wf_state(s),
        s.column + bs.len() <= VGA_WIDTH,
        forall|i: int| 0 <= i < bs.len() ==> is_printable(#[trigger] bs[i]),
    ensures
        wf_state(write_bytes_spec(s, colour, bs)),
        write_bytes_spec(s, colour, bs).column == s.column + bs.len(),
        forall|r: int|
            0 <= r < VGA_HEIGHT - 1 ==> #[trigger] write_bytes_spec(s, colour, bs).grid[r]
                == s.grid[r],
        forall|c: int|
            (0 <= c < s.column || s.column + bs.len() <= c < VGA_WIDTH)
                ==> #[trigger] write_bytes_spec(s, colour, bs).grid[VGA_HEIGHT - 1][c] == s.grid[
            VGA_HEIGHT - 1][c],
        forall|i: int|
            0 <= i < bs.len() ==> #[trigger] write_bytes_spec(s, colour, bs).grid[VGA_HEIGHT - 1][
            s.column + i] == (VgaChar { ascii_character: bs[i], colour }),
    decreases bs.len(),
{
    if bs.len() > 0 {
        let b = bs[0];
        assert(is_printable(b));
        let t = write_byte_spec(s, colour, sanitize_spec(b));
        lemma_fill_row(t, colour, bs.drop_first());
        assert forall|i: int| 0 <= i < bs.len() implies write_bytes_spec(s, colour, bs).grid[
        VGA_HEIGHT - 1][s.column + i] == (VgaChar { ascii_character: bs[i], colour }) by {
            if i > 0 {
                assert(bs.drop_first()[i - 1] == bs[i]);
                assert(write_bytes_spec(t, colour, bs.drop_first()).grid[VGA_HEIGHT - 1][t.column
                    + (i - 1)] == (VgaChar { ascii_character: bs.drop_first()[i - 1], colour }));
            }
        }
    }
}

/// Writing one full row of printable bytes and then one more causes exactly
/// one scroll: the extra byte lands at the start of a fresh bottom row and
/// the column ends at one.
pub proof fn lemma_wrap_after_full_row(s: ConsoleState, colour: ColourCode, bs: Seq<u8>)
    requires
        wf_state(s),
        s.column == 0,
        bs.len() == VGA_WIDTH + 1,
        forall|i: int| 0 <= i < bs.len() ==> is_printable(#[trigger] bs[i]),
    ensures
        write_bytes_spec(s, colour, bs).column == 1,
        write_bytes_spec(s, colour, bs).grid == written(
            scrolled(write_bytes_spec(s, colour, bs.take(VGA_WIDTH as int)).grid, colour),
            VGA_HEIGHT - 1,
            0,
            VgaChar { ascii_character: bs[VGA_WIDTH as int], colour },
        ),
        forall|c: int|
            0 <= c < VGA_WIDTH ==> #[trigger] write_bytes_spec(s, colour, bs).grid[VGA_HEIGHT - 2][
            c] == (VgaChar { ascii_character: bs[c], colour }),
        write_bytes_spec(s, colour, bs).grid[VGA_HEIGHT - 1][0] == (VgaChar {
            ascii_character: bs[VGA_WIDTH as int],
            colour,
        }),
        forall|c: int|
            1 <= c < VGA_WIDTH ==> #[trigger] write_bytes_spec(s, colour, bs).grid[VGA_HEIGHT - 1][
            c] == blank_char(colour),
{
    let first = bs.take(VGA_WIDTH as int);
    let last = bs[VGA_WIDTH as int];
    assert(forall|i: int| 0 <= i < first.len() ==> is_printable(#[trigger] first[i]));
    lemma_fill_row(s, colour, first);
    lemma_write_bytes_snoc(s, colour, first, last);
    assert(first.push(last) =~= bs);
    assert(is_printable(last));
    assert(sanitize_spec(last) == last);
    let t80 = write_bytes_spec(s, colour, first);
    let t = write_bytes_spec(s, colour, bs);
    // The row above the cursor is the just-filled row, moved up by the one
    // scroll; the fresh bottom row is blank but for the wrapped byte.
    assert forall|c: int| 0 <= c < VGA_WIDTH implies t.grid[VGA_HEIGHT - 2][c] == (VgaChar {
        ascii_character: bs[c],
        colour,
    }) by {
        assert(t.grid[VGA_HEIGHT - 2] == scrolled(t80.grid, colour)[VGA_HEIGHT - 2]);
        assert(t80.grid[VGA_HEIGHT - 1][s.column + c] == (VgaChar {
            ascii_character: first[c],
            colour,
        }));
    }
    assert(t.grid[VGA_HEIGHT - 1] == scrolled(t80.grid, colour)[VGA_HEIGHT - 1].update(
        0,
        VgaChar { ascii_character: last, colour },
    ));
}

} // verus!
