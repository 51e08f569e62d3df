//! The mathematical model of the display: cursor, current attribute and the
//! grid of cells, with one spec function per state transition.
use vstd::prelude::*;
use crate::color::ColorCode;

verus! {

/// Number of columns of the grid.
pub const BUFFER_WIDTH: usize = 80;

/// Number of rows of the grid.
pub const BUFFER_HEIGHT: usize = 25;

/// Number of cells of the grid.
pub const BUFFER_SIZE: usize = 2000;

/// The glyph stored in place of a byte that the device must not render.
pub const UNDEFINED_GLYPH: u8 = 0xfe;

/// The newline byte.
pub const NEWLINE: u8 = 0x0a;

/// The backspace byte.
pub const BACKSPACE: u8 = 0x08;

/// The glyph of an empty cell.
pub const SPACE: u8 = 0x20;

/// One cell of the grid: a glyph byte followed by its attribute byte.
#[derive(Debug, Clone, Copy, PartialEq, Eq, Structural)]
pub struct ScreenChar {
    pub ascii_char: u8,
    pub color_code: ColorCode,
}

/// The state of a display, as a value: cursor position, current attribute,
/// and the cells in row-major order (cell `(r, c)` at index `r * 80 + c`).
pub ghost struct Screen {
    pub row: int,
    pub col: int,
    pub color: ColorCode,
    pub cells: Seq<ScreenChar>,
}

/// An empty cell in the given attribute.
pub open spec fn blank(color: ColorCode) -> ScreenChar {
    ScreenChar { ascii_char: SPACE, color_code: color }
}

/// Bytes in the printable ASCII range, which the device renders as they are.
pub open spec fn is_printable(b: u8) -> bool {
    0x20 <= b <= 0x7e
}

/// What the text path hands to the cell writer for a byte: printable bytes and
/// newlines unchanged, anything else replaced by the undefined glyph.
pub open spec fn displayed(b: u8) -> u8 {
    if is_printable(b) || b == NEWLINE {
        b
    } else {
        UNDEFINED_GLYPH
    }
}

/// Index of cell `(r, c)` in row-major order.
pub open spec fn index_of(r: int, c: int) -> int {
    r * BUFFER_WIDTH + c
}

/// The cells after scrolling up by one row: row `i` moves to row `i - 1`, the
/// top row is lost, and the bottom row is blank in `color`.
pub open spec fn scrolled(cells: Seq<ScreenChar>, color: ColorCode) -> Seq<ScreenChar> {
    Seq::new(
        BUFFER_SIZE as nat,
        |k: int|
            if k < BUFFER_SIZE - BUFFER_WIDTH {
                cells[k + BUFFER_WIDTH]
            } else {
                blank(color)
            },
    )
}

impl Screen {
    /// Cursor in bounds and a full grid of cells.
    pub open spec fn wf(self) -> bool {
        &&& 0 <= self.row < BUFFER_HEIGHT
        &&& 0 <= self.col < BUFFER_WIDTH
        &&& self.cells.len() == BUFFER_SIZE
    }

    /// The cell at row `r`, column `c`.
    pub open spec fn cell(self, r: int, c: int) -> ScreenChar {
        self.cells[index_of(r, c)]
    }

    /// Index of the cell under the cursor.
    pub open spec fn cursor_index(self) -> int {
        index_of(self.row, self.col)
    }

    /// The same display with another current attribute.
    pub open spec fn with_color(self, color: ColorCode) -> Screen {
        Screen { color, ..self }
    }

    /// Newline: column 0 of the next row, or, on the last row, scroll the grid
    /// up by one and stay on the last row.
    pub open spec fn new_line(self) -> Screen {
        if self.row < BUFFER_HEIGHT - 1 {
            Screen { row: self.row + 1, col: 0, ..self }
        } else {
            Screen { col: 0, cells: scrolled(self.cells, self.color), ..self }
        }
    }

    /// Backspace: step back one cell, onto the last column of the previous row
    /// from column 0, and blank the cell stepped onto; nothing at the origin.
    pub open spec fn back_space(self) -> Screen {
        if self.col > 0 {
            let c = self.col - 1;
            Screen {
                col: c,
                cells: self.cells.update(index_of(self.row, c), blank(self.color)),
                ..self
            }
        } else if self.row > 0 {
            let r = self.row - 1;
            let c = BUFFER_WIDTH - 1;
            Screen {
                row: r,
                col: c,
                cells: self.cells.update(index_of(r, c), blank(self.color)),
                ..self
            }
        } else {
            self
        }
    }

    /// Any other byte: stored with the current attribute under the cursor,
    /// which advances, wrapping to the next line after the last column.
    pub open spec fn put_glyph(self, b: u8) -> Screen {
        let next = Screen {
            col: self.col + 1,
            cells: self.cells.update(self.cursor_index(), ScreenChar { ascii_char: b, color_code: self.color }),
            ..self
        };
        if next.col == BUFFER_WIDTH {
            next.new_line()
        } else {
            next
        }
    }

    /// The effect of writing one byte to the cell writer.
    pub open spec fn write_byte(self, b: u8) -> Screen {
        if b == NEWLINE {
            self.new_line()
        } else if b == BACKSPACE {
            self.back_space()
        } else {
            self.put_glyph(b)
        }
    }

    /// The effect of writing a byte sequence through the text path, first byte first.
    pub open spec fn write_text(self, bytes: Seq<u8>) -> Screen
        decreases bytes.len(),
    {
        if bytes.len() == 0 {
            self
        } else {
            self.write_text(bytes.drop_last()).write_byte(displayed(bytes.last()))
        }
    }
}

} // verus!
