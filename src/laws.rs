//! Laws of the display model, stated over `Screen` and proved.
use vstd::prelude::*;
use crate::color::ColorCode;
use crate::model::{
    blank, displayed, index_of, is_printable, Screen, ScreenChar, BACKSPACE, BUFFER_HEIGHT,
    BUFFER_SIZE, BUFFER_WIDTH, NEWLINE, UNDEFINED_GLYPH,
};

verus! {

/// Writing `k + 1` bytes is writing the first `k`, then the byte at `k`.
proof fn lemma_write_text_step(s: Screen, bytes: Seq<u8>, k: int)
    requires
        0 <= k < bytes.len(),
    ensures
        s.write_text(bytes.take(k + 1)) == s.write_text(bytes.take(k)).write_byte(
            displayed(bytes[k]),
        ),
{
    assert(bytes.take(k + 1).drop_last() =~= bytes.take(k));
}

/// Every step of the cell writer keeps the cursor in bounds and the grid whole.
pub proof fn lemma_write_byte_wf(s: Screen, b: u8)
    requires
        s.wf(),
    ensures
        s.write_byte(b).wf(),
        s.write_byte(b).color == s.color,
{
}

/// A byte that is neither printable nor a newline is written exactly as the
/// undefined glyph would be, and the cell it lands in holds that glyph, never
/// the byte itself.
pub proof fn lemma_undefined_byte_rendered_as_placeholder(s: Screen, b: u8)
    requires
        s.wf(),
        !is_printable(b),
        b != NEWLINE,
    ensures
        s.write_text(seq![b]) == s.write_byte(UNDEFINED_GLYPH),
        s.write_text(seq![b]).cells[if s.row == BUFFER_HEIGHT - 1 && s.col == BUFFER_WIDTH - 1 {
            index_of(BUFFER_HEIGHT - 2, BUFFER_WIDTH - 1)
        } else {
            s.cursor_index()
        }] == (ScreenChar { ascii_char: UNDEFINED_GLYPH, color_code: s.color }),
{
    assert(seq![b].drop_last() =~= Seq::<u8>::empty());
    assert(seq![b].last() == b);
    assert(s.write_text(Seq::<u8>::empty()) == s);
    assert(displayed(b) == UNDEFINED_GLYPH);
    assert(s.write_text(seq![b]) == s.write_byte(UNDEFINED_GLYPH));
}

/// Glyphs that the device may show: printable ASCII and the undefined glyph.
pub open spec fn all_displayable(cells: Seq<ScreenChar>) -> bool {
    forall|j: int|
        0 <= j < cells.len() ==> #[trigger] is_printable(cells[j].ascii_char) || cells[j].ascii_char
            == UNDEFINED_GLYPH
}

/// Text written through the text path never leaves a control byte in the grid:
/// from a grid of displayable glyphs, every glyph stays displayable.
pub proof fn lemma_write_text_keeps_cells_displayable(s: Screen, bytes: Seq<u8>)
    requires
        s.wf(),
        all_displayable(s.cells),
    ensures
        s.write_text(bytes).wf(),
        all_displayable(s.write_text(bytes).cells),
    decreases bytes.len(),
{
    if bytes.len() > 0 {
        let p = s.write_text(bytes.drop_last());
        lemma_write_text_keeps_cells_displayable(s, bytes.drop_last());
        let d = displayed(bytes.last());
        let t = p.write_byte(d);
        assert(d != BACKSPACE);
        assert forall|j: int| 0 <= j < t.cells.len() implies #[trigger] is_printable(
            t.cells[j].ascii_char,
        ) || t.cells[j].ascii_char == UNDEFINED_GLYPH by {
            if d != NEWLINE {
                let q = Screen {
                    col: p.col + 1,
                    cells: p.cells.update(
                        p.cursor_index(),
                        ScreenChar { ascii_char: d, color_code: p.color },
                    ),
                    ..p
                };
                assert(is_printable(q.cells[j].ascii_char) || q.cells[j].ascii_char
                    == UNDEFINED_GLYPH);
                if j + BUFFER_WIDTH < BUFFER_SIZE {
                    assert(is_printable(q.cells[j + BUFFER_WIDTH].ascii_char)
                        || q.cells[j + BUFFER_WIDTH].ascii_char == UNDEFINED_GLYPH);
                }
            } else {
                if j + BUFFER_WIDTH < BUFFER_SIZE {
                    assert(is_printable(p.cells[j + BUFFER_WIDTH].ascii_char)
                        || p.cells[j + BUFFER_WIDTH].ascii_char == UNDEFINED_GLYPH);
                }
            }
        }
    }
}

/// Backspace at column 0 of a row below the first moves to the last column of
/// the row above and blanks that cell in the current attribute, leaving every
/// other cell as it was; at the top left corner it changes nothing.
pub proof fn lemma_backspace(s: Screen)
    requires
        s.wf(),
    ensures
        s.col == 0 && s.row > 0 ==> {
            let t = s.write_byte(BACKSPACE);
            &&& t.wf()
            &&& t.row == s.row - 1
            &&& t.col == BUFFER_WIDTH - 1
            &&& t.color == s.color
            &&& t.cell(s.row - 1, BUFFER_WIDTH - 1) == blank(s.color)
            &&& forall|j: int|
                0 <= j < BUFFER_SIZE && j != index_of(s.row - 1, BUFFER_WIDTH - 1) ==> t.cells[j]
                    == s.cells[j]
        },
        s.col == 0 && s.row == 0 ==> s.write_byte(BACKSPACE) == s,
{
}

/// A newline on the last row scrolls: the top row is lost, every other row
/// moves up by exactly one, the bottom row is blank in the current attribute,
/// and the cursor goes to column 0 of the last row.
pub proof fn lemma_newline_scrolls_on_last_row(s: Screen)
    requires
        s.wf(),
        s.row == BUFFER_HEIGHT - 1,
    ensures
        ({
            let t = s.write_byte(NEWLINE);
            &&& t.wf()
            &&& t.row == BUFFER_HEIGHT - 1
            &&& t.col == 0
            &&& forall|r: int, c: int|
                0 <= r < BUFFER_HEIGHT - 1 && 0 <= c < BUFFER_WIDTH ==> #[trigger] t.cell(r, c)
                    == s.cell(r + 1, c)
            &&& forall|c: int|
                0 <= c < BUFFER_WIDTH ==> #[trigger] t.cell(BUFFER_HEIGHT - 1, c) == blank(s.color)
        }),
{
}

/// Where the cursor stands after laying out `bytes` from row `r`, column `c`
/// on a grid without scrolling: a newline goes to column 0 of the next row, any
/// other byte takes one cell and wraps after the last column.
pub open spec fn cursor_after(r: int, c: int, bytes: Seq<u8>) -> (int, int)
    decreases bytes.len(),
{
    if bytes.len() == 0 {
        (r, c)
    } else {
        let p = cursor_after(r, c, bytes.drop_last());
        if bytes.last() == NEWLINE || p.1 + 1 == BUFFER_WIDTH {
            (p.0 + 1, 0)
        } else {
            (p.0, p.1 + 1)
        }
    }
}

/// Text made of printable bytes and newlines only.
pub open spec fn is_plain_text(bytes: Seq<u8>) -> bool {
    forall|i: int| 0 <= i < bytes.len() ==> is_printable(#[trigger] bytes[i]) || bytes[i] == NEWLINE
}

/// Index of the cell that byte `i` of `bytes` is laid out in, from `(r, c)`.
pub open spec fn slot(r: int, c: int, bytes: Seq<u8>, i: int) -> int {
    let p = cursor_after(r, c, bytes.take(i));
    index_of(p.0, p.1)
}

proof fn lemma_cursor_after_step(r: int, c: int, bytes: Seq<u8>, k: int)
    requires
        0 <= k < bytes.len(),
    ensures
        cursor_after(r, c, bytes.take(k + 1)) == ({
            let p = cursor_after(r, c, bytes.take(k));
            if bytes[k] == NEWLINE || p.1 + 1 == BUFFER_WIDTH {
                (p.0 + 1, 0)
            } else {
                (p.0, p.1 + 1)
            }
        }),
{
    assert(bytes.take(k + 1).drop_last() =~= bytes.take(k));
}

/// The cursor never moves up while text is laid out.
proof fn lemma_cursor_rows_grow(r: int, c: int, bytes: Seq<u8>, k: int)
    requires
        0 <= k <= bytes.len(),
    ensures
        cursor_after(r, c, bytes.take(k)).0 <= cursor_after(r, c, bytes).0,
    decreases bytes.len() - k,
{
    if k == bytes.len() {
        assert(bytes.take(k) =~= bytes);
    } else {
        lemma_cursor_after_step(r, c, bytes, k);
        lemma_cursor_rows_grow(r, c, bytes, k + 1);
    }
}

/// What holds after the first `n` bytes of a text that fits on the grid.
proof fn lemma_layout_prefix(s: Screen, bytes: Seq<u8>, n: int)
    requires
        s.wf(),
        is_plain_text(bytes),
        cursor_after(s.row, s.col, bytes).0 < BUFFER_HEIGHT,
        0 <= n <= bytes.len(),
    ensures
        ({
            let u = s.write_text(bytes.take(n));
            let p = cursor_after(s.row, s.col, bytes.take(n));
            &&& u.wf()
            &&& u.row == p.0
            &&& u.col == p.1
            &&& u.color == s.color
            &&& s.cursor_index() <= u.cursor_index()
            &&& forall|i: int|
                0 <= i < n && is_printable(bytes[i]) ==> {
                    &&& s.cursor_index() <= #[trigger] slot(s.row, s.col, bytes, i) < u.cursor_index()
                    &&& u.cells[slot(s.row, s.col, bytes, i)] == ScreenChar {
                        ascii_char: bytes[i],
                        color_code: s.color,
                    }
                }
            &&& forall|j: int|
                0 <= j < BUFFER_SIZE && (forall|i: int|
                    0 <= i < n && is_printable(bytes[i]) ==> #[trigger] slot(s.row, s.col, bytes, i)
                        != j) ==> u.cells[j] == s.cells[j]
        }),
    decreases n,
{
    if n == 0 {
        assert(bytes.take(0) =~= Seq::<u8>::empty());
        assert(s.write_text(Seq::<u8>::empty()) == s);
    } else {
        let k = n - 1;
        lemma_layout_prefix(s, bytes, k);
        lemma_write_text_step(s, bytes, k);
        lemma_cursor_after_step(s.row, s.col, bytes, k);
        lemma_cursor_rows_grow(s.row, s.col, bytes, n);
        let u = s.write_text(bytes.take(k));
        let b = bytes[k];
        assert(is_printable(b) || b == NEWLINE);
        assert(displayed(b) == b);
        let t = s.write_text(bytes.take(n));
        assert(t == u.write_byte(b));
        assert(slot(s.row, s.col, bytes, k) == u.cursor_index());
        if b == NEWLINE {
            assert(u.row < BUFFER_HEIGHT - 1);
            assert(t.cells == u.cells);
        } else {
            assert(b != BACKSPACE);
            assert(t.cells == u.cells.update(u.cursor_index(), ScreenChar { ascii_char: b, color_code: s.color }));
        }
        assert(t.wf());
        assert(u.cursor_index() < t.cursor_index());
        assert forall|i: int|
            0 <= i < n && is_printable(bytes[i]) implies {
                &&& s.cursor_index() <= #[trigger] slot(s.row, s.col, bytes, i) < t.cursor_index()
                &&& t.cells[slot(s.row, s.col, bytes, i)] == ScreenChar {
                    ascii_char: bytes[i],
                    color_code: s.color,
                }
            } by {
            if i < k {
                assert(s.cursor_index() <= slot(s.row, s.col, bytes, i) < u.cursor_index());
                assert(t.cells[slot(s.row, s.col, bytes, i)] == u.cells[slot(s.row, s.col, bytes, i)]);
            }
        }
        assert forall|j: int|
            0 <= j < BUFFER_SIZE && (forall|i: int|
                0 <= i < n && is_printable(bytes[i]) ==> #[trigger] slot(s.row, s.col, bytes, i)
                    != j) implies t.cells[j] == s.cells[j] by {
            if is_printable(b) {
                assert(slot(s.row, s.col, bytes, k) != j);
            }
            assert forall|i: int|
                0 <= i < k && is_printable(bytes[i]) implies #[trigger] slot(s.row, s.col, bytes, i) != j by {
                assert(slot(s.row, s.col, bytes, i) != j);
            }
        }
    }
}

/// Text of printable bytes and newlines that fits on the grid is laid out in
/// reading order: each printable byte lands, in the current attribute, in the
/// cell that `cursor_after` gives for the text before it (left to right, top
/// to bottom, wrapping after column 79), the cursor ends where `cursor_after`
/// says, and every cell that no byte lands in keeps its content.
pub proof fn lemma_text_laid_out_in_reading_order(s: Screen, bytes: Seq<u8>)
    requires
        s.wf(),
        is_plain_text(bytes),
        cursor_after(s.row, s.col, bytes).0 < BUFFER_HEIGHT,
    ensures
        ({
            let t = s.write_text(bytes);
            &&& t.wf()
            &&& (t.row, t.col) == cursor_after(s.row, s.col, bytes)
            &&& t.color == s.color
            &&& forall|i: int|
                0 <= i < bytes.len() && is_printable(bytes[i]) ==> t.cells[#[trigger] slot(
                    s.row,
                    s.col,
                    bytes,
                    i,
                )] == ScreenChar { ascii_char: bytes[i], color_code: s.color }
            &&& forall|j: int|
                0 <= j < BUFFER_SIZE && (forall|i: int|
                    0 <= i < bytes.len() && is_printable(bytes[i]) ==> #[trigger] slot(
                        s.row,
                        s.col,
                        bytes,
                        i,
                    ) != j) ==> t.cells[j] == s.cells[j]
        }),
{
    lemma_layout_prefix(s, bytes, bytes.len() as int);
    assert(bytes.take(bytes.len() as int) =~= bytes);
}

/// After `k < 80` printable bytes from column 0 the cursor is at column `k` of
/// the same row, which holds the bytes, and nothing else has changed.
proof fn lemma_row_prefix(s: Screen, bytes: Seq<u8>, k: int)
    requires
        s.wf(),
        s.col == 0,
        bytes.len() == BUFFER_WIDTH,
        forall|i: int| 0 <= i < bytes.len() ==> is_printable(#[trigger] bytes[i]),
        0 <= k < BUFFER_WIDTH,
    ensures
        ({
            let u = s.write_text(bytes.take(k));
            &&& u.row == s.row
            &&& u.col == k
            &&& u.color == s.color
            &&& u.cells.len() == BUFFER_SIZE
            &&& forall|j: int|
                0 <= j < BUFFER_SIZE ==> #[trigger] u.cells[j] == if index_of(s.row, 0) <= j
                    < index_of(s.row, k) {
                    ScreenChar { ascii_char: bytes[j - index_of(s.row, 0)], color_code: s.color }
                } else {
                    s.cells[j]
                }
        }),
    decreases k,
{
    if k == 0 {
        assert(bytes.take(0) =~= Seq::<u8>::empty());
        assert(s.write_text(Seq::<u8>::empty()) == s);
    } else {
        lemma_row_prefix(s, bytes, k - 1);
        lemma_write_text_step(s, bytes, k - 1);
        assert(is_printable(bytes[k - 1]));
        assert(displayed(bytes[k - 1]) == bytes[k - 1]);
    }
}

/// Eighty printable bytes written from column 0 fill the row and leave the
/// cursor at column 0 of the next row, with no newline written; on the last
/// row the grid scrolls first, so the filled row is then the one above.
pub proof fn lemma_full_row_wraps(s: Screen, bytes: Seq<u8>)
    requires
        s.wf(),
        s.col == 0,
        bytes.len() == BUFFER_WIDTH,
        forall|i: int| 0 <= i < bytes.len() ==> is_printable(#[trigger] bytes[i]),
    ensures
        ({
            let t = s.write_text(bytes);
            let filled = if s.row < BUFFER_HEIGHT - 1 {
                s.row
            } else {
                BUFFER_HEIGHT - 2
            };
            &&& t.wf()
            &&& t.col == 0
            &&& t.row == if s.row < BUFFER_HEIGHT - 1 {
                s.row + 1
            } else {
                BUFFER_HEIGHT - 1
            }
            &&& forall|c: int|
                0 <= c < BUFFER_WIDTH ==> #[trigger] t.cell(filled, c) == ScreenChar {
                    ascii_char: bytes[c],
                    color_code: s.color,
                }
        }),
{
    let k = BUFFER_WIDTH - 1;
    lemma_row_prefix(s, bytes, k);
    lemma_write_text_step(s, bytes, k);
    assert(bytes.take(k + 1) =~= bytes);
    assert(is_printable(bytes[k]));
    assert(displayed(bytes[k]) == bytes[k]);
    let u = s.write_text(bytes.take(k));
    let t = s.write_text(bytes);
    let filled = if s.row < BUFFER_HEIGHT - 1 {
        s.row
    } else {
        BUFFER_HEIGHT - 2
    };
    assert forall|c: int| 0 <= c < BUFFER_WIDTH implies #[trigger] t.cell(filled, c) == ScreenChar {
        ascii_char: bytes[c],
        color_code: s.color,
    } by {
        if c < k {
            assert(u.cells[index_of(s.row, c)] == ScreenChar {
                ascii_char: bytes[c],
                color_code: s.color,
            });
        }
    }
}

/// Changing the attribute touches no cell: text of printable bytes and
/// newlines that fits on the grid, written after the change, lands in the new
/// attribute, and every cell it does not land in keeps the content, attribute
/// included, that it had before the change.
pub proof fn lemma_set_color_affects_later_cells_only(s: Screen, color: ColorCode, bytes: Seq<u8>)
    requires
        s.wf(),
        is_plain_text(bytes),
        cursor_after(s.row, s.col, bytes).0 < BUFFER_HEIGHT,
    ensures
        s.with_color(color).cells == s.cells,
        ({
            let t = s.with_color(color).write_text(bytes);
            &&& forall|i: int|
                0 <= i < bytes.len() && is_printable(bytes[i]) ==> t.cells[#[trigger] slot(
                    s.row,
                    s.col,
                    bytes,
                    i,
                )] == ScreenChar { ascii_char: bytes[i], color_code: color }
            &&& forall|j: int|
                0 <= j < BUFFER_SIZE && (forall|i: int|
                    0 <= i < bytes.len() && is_printable(bytes[i]) ==> #[trigger] slot(
                        s.row,
                        s.col,
                        bytes,
                        i,
                    ) != j) ==> t.cells[j] == s.cells[j]
        }),
{
    lemma_text_laid_out_in_reading_order(s.with_color(color), bytes);
}

/// `n` newline bytes.
pub open spec fn newlines(n: nat) -> Seq<u8> {
    Seq::new(n, |i: int| NEWLINE)
}

/// How many times `n` newlines written from row `row` scroll the grid.
pub open spec fn scroll_count(row: int, n: nat) -> int {
    if row + n > BUFFER_HEIGHT - 1 {
        row + n - (BUFFER_HEIGHT - 1)
    } else {
        0
    }
}

/// Writing `n` newlines moves the cursor down `n` rows, to column 0, stopping
/// on the last row; each newline past the last row scrolls once, so with `k`
/// scrolls row `r` shows what row `r + k` showed, the top `k` rows are lost,
/// and the bottom `k` rows are blank in the current attribute.
pub proof fn lemma_newlines_shift_rows(s: Screen, n: nat)
    requires
        s.wf(),
    ensures
        ({
            let t = s.write_text(newlines(n));
            let k = scroll_count(s.row, n);
            &&& t.wf()
            &&& t.color == s.color
            &&& n > 0 ==> t.col == 0
            &&& t.row == if s.row + n < BUFFER_HEIGHT {
                s.row + n
            } else {
                BUFFER_HEIGHT - 1
            }
            &&& forall|r: int, c: int|
                0 <= r < BUFFER_HEIGHT && 0 <= c < BUFFER_WIDTH ==> #[trigger] t.cell(r, c) == if r
                    + k < BUFFER_HEIGHT {
                    s.cell(r + k, c)
                } else {
                    blank(s.color)
                }
        }),
    decreases n,
{
    if n == 0 {
        assert(newlines(0) =~= Seq::<u8>::empty());
        assert(s.write_text(Seq::<u8>::empty()) == s);
    } else {
        let m = (n - 1) as nat;
        lemma_newlines_shift_rows(s, m);
        lemma_write_text_step(s, newlines(n), m as int);
        assert(newlines(n).take(m as int) =~= newlines(m));
        assert(displayed(NEWLINE) == NEWLINE);
        let u = s.write_text(newlines(m));
        let t = s.write_text(newlines(n));
        assert(t == u.write_byte(NEWLINE));
        if u.row < BUFFER_HEIGHT - 1 {
            assert(t.cells == u.cells);
            assert(scroll_count(s.row, n) == 0 && scroll_count(s.row, m) == 0);
            assert forall|r: int, c: int|
                0 <= r < BUFFER_HEIGHT && 0 <= c < BUFFER_WIDTH implies #[trigger] t.cell(r, c)
                    == s.cell(r, c) by {
                assert(u.cell(r, c) == s.cell(r, c));
            }
        } else {
            lemma_newline_scrolls_on_last_row(u);
            assert(scroll_count(s.row, n) == scroll_count(s.row, m) + 1);
            assert forall|r: int, c: int|
                0 <= r < BUFFER_HEIGHT && 0 <= c < BUFFER_WIDTH implies #[trigger] t.cell(r, c)
                    == if r + scroll_count(s.row, n) < BUFFER_HEIGHT {
                    s.cell(r + scroll_count(s.row, n), c)
                } else {
                    blank(s.color)
                } by {
                if r < BUFFER_HEIGHT - 1 {
                    assert(t.cell(r, c) == u.cell(r + 1, c));
                } else {
                    assert(t.cell(r, c) == blank(s.color));
                }
            }
        }
    }
}

} // verus!
