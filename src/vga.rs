//! The writer: owns the grid of cells, the cursor and the current attribute,
//! and carries out every change to them.
use vstd::prelude::*;
use vstd::string::StringSliceAdditionalSpecFns;
use crate::color::{Color, ColorCode};
use crate::model::{
    blank, scrolled, Screen, ScreenChar, BACKSPACE, BUFFER_HEIGHT, BUFFER_SIZE, BUFFER_WIDTH,
    NEWLINE, SPACE, UNDEFINED_GLYPH,
};

verus! {

/// A display writer over its own 80 by 25 grid of cells.
pub struct Writer {
    current_column: usize,
    current_row: usize,
    color_code: ColorCode,
    buffer: Vec<ScreenChar>,
}

impl View for Writer {
    type V = Screen;

    closed spec fn view(&self) -> Screen {
        Screen {
            row: self.current_row as int,
            col: self.current_column as int,
            color: self.color_code,
            cells: self.buffer@,
        }
    }
}

/// The attribute a new writer starts with: white on black.
pub open spec fn default_color() -> ColorCode {
    ColorCode(0x0f)
}

impl Writer {
    /// A writer with the cursor at the top left, white on black, over a grid
    /// of blank cells in that attribute.
    pub fn new() -> (w: Writer)
        ensures
            w@.wf(),
            w@.row == 0,
            w@.col == 0,
            w@.color == default_color(),
            w@.cells == Seq::new(BUFFER_SIZE as nat, |k: int| blank(default_color())),
    {
        let color_code = ColorCode::new(Color::White, Color::Black);
        let cell = ScreenChar { ascii_char: SPACE, color_code };
        let mut buffer: Vec<ScreenChar> = Vec::new();
        let mut k: usize = 0;
        while k < BUFFER_SIZE
            invariant
                k <= BUFFER_SIZE,
                buffer@.len() == k,
                forall|j: int| 0 <= j < k ==> buffer@[j] == blank(default_color()),
                cell == blank(default_color()),
            decreases BUFFER_SIZE - k,
        {
            buffer.push(cell);
            k += 1;
        }
        assert(buffer@ =~= Seq::new(BUFFER_SIZE as nat, |k: int| blank(default_color())));
        Writer { current_column: 0, current_row: 0, color_code, buffer }
    }

    /// Row of the cursor.
    pub fn cursor_row(&self) -> (r: usize)
        ensures
            r == self@.row,
    {
        self.current_row
    }

    /// Column of the cursor.
    pub fn cursor_column(&self) -> (r: usize)
        ensures
            r == self@.col,
    {
        self.current_column
    }

    /// The attribute stamped on cells written from now on.
    pub fn color_code(&self) -> (r: ColorCode)
        ensures
            r == self@.color,
    {
        self.color_code
    }

    /// The cell at row `row`, column `col`.
    pub fn char_at(&self, row: usize, col: usize) -> (r: ScreenChar)
        requires
            self@.wf(),
            row < BUFFER_HEIGHT,
            col < BUFFER_WIDTH,
        ensures
            r == self@.cell(row as int, col as int),
    {
        self.buffer[row * BUFFER_WIDTH + col]
    }

    /// Replaces the current attribute; cells already written keep theirs.
    pub fn set_color(&mut self, color_code: ColorCode)
        requires
            old(self)@.wf(),
        ensures
            final(self)@ == old(self)@.with_color(color_code),
            final(self)@.wf(),
    {
        self.color_code = color_code;
    }

    /// Moves the cursor to the start of the next line, scrolling the grid up
    /// by one row when the cursor is on the last row.
    fn new_line(&mut self)
        requires
            old(self).current_row < BUFFER_HEIGHT,
            old(self).buffer@.len() == BUFFER_SIZE,
        ensures
            final(self)@ == old(self)@.new_line(),
    {
        self.current_column = 0;
        if self.current_row < BUFFER_HEIGHT - 1 {
            self.current_row += 1;
        } else {
            let ghost before = self.buffer@;
            let ghost row = self.current_row;
            let ghost color = self.color_code;
            let mut k: usize = 0;
            while k < BUFFER_SIZE - BUFFER_WIDTH
                invariant
                    k <= BUFFER_SIZE - BUFFER_WIDTH,
                    self.current_column == 0,
                    self.current_row == row,
                    self.color_code == color,
                    self.buffer@.len() == BUFFER_SIZE,
                    before.len() == BUFFER_SIZE,
                    forall|j: int| 0 <= j < k ==> self.buffer@[j] == before[j + BUFFER_WIDTH],
                    forall|j: int| k <= j < BUFFER_SIZE ==> self.buffer@[j] == before[j],
                decreases BUFFER_SIZE - BUFFER_WIDTH - k,
            {
                let moved = self.buffer[k + BUFFER_WIDTH];
                self.buffer[k] = moved;
                k += 1;
            }
            let cell = ScreenChar { ascii_char: SPACE, color_code: self.color_code };
            while k < BUFFER_SIZE
                invariant
                    BUFFER_SIZE - BUFFER_WIDTH <= k <= BUFFER_SIZE,
                    self.current_column == 0,
                    self.current_row == row,
                    self.color_code == color,
                    self.buffer@.len() == BUFFER_SIZE,
                    before.len() == BUFFER_SIZE,
                    cell == blank(self.color_code),
                    forall|j: int|
                        0 <= j < BUFFER_SIZE - BUFFER_WIDTH ==> self.buffer@[j] == before[j
                            + BUFFER_WIDTH],
                    forall|j: int| BUFFER_SIZE - BUFFER_WIDTH <= j < k ==> self.buffer@[j] == cell,
                decreases BUFFER_SIZE - k,
            {
                self.buffer[k] = cell;
                k += 1;
            }
            assert(self.buffer@ =~= scrolled(before, self.color_code));
        }
    }

    /// Writes one byte as the cell writer does: newline, backspace, or a glyph
    /// stored under the cursor with the current attribute.
    pub fn write_byte(&mut self, byte: u8)
        requires
            old(self)@.wf(),
        ensures
            final(self)@ == old(self)@.write_byte(byte),
            final(self)@.wf(),
    {
        if byte == NEWLINE {
            self.new_line();
        } else if byte == BACKSPACE {
            let cell = ScreenChar { ascii_char: SPACE, color_code: self.color_code };
            if self.current_column > 0 {
                self.current_column -= 1;
                let i = self.current_row * BUFFER_WIDTH + self.current_column;
                self.buffer[i] = cell;
            } else if self.current_row > 0 {
                self.current_row -= 1;
                self.current_column = BUFFER_WIDTH - 1;
                let i = self.current_row * BUFFER_WIDTH + self.current_column;
                self.buffer[i] = cell;
            }
        } else {
            let i = self.current_row * BUFFER_WIDTH + self.current_column;
            self.buffer[i] = ScreenChar { ascii_char: byte, color_code: self.color_code };
            self.current_column += 1;
            if self.current_column == BUFFER_WIDTH {
                self.new_line();
            }
        }
    }

    /// Writes text byte by byte, replacing each byte that is neither printable
    /// ASCII nor a newline by the undefined glyph.
    pub fn write(&mut self, s: &str)
        requires
            old(self)@.wf(),
        ensures
            final(self)@ == old(self)@.write_text(s.spec_bytes()),
            final(self)@.wf(),
    {
        let bytes = s.as_bytes();
        let ghost start = self@;
        let mut k: usize = 0;
        while k < bytes.len()
            invariant
                k <= bytes@.len(),
                bytes@ == s.spec_bytes(),
                self@.wf(),
                self@ == start.write_text(bytes@.take(k as int)),
            decreases bytes@.len() - k,
        {
            let byte = bytes[k];
            if (0x20 <= byte && byte <= 0x7e) || byte == NEWLINE {
                self.write_byte(byte);
            } else {
                self.write_byte(UNDEFINED_GLYPH);
            }
            proof {
                let next = bytes@.take(k + 1);
                assert(next.drop_last() =~= bytes@.take(k as int));
                assert(next.last() == byte);
            }
            k += 1;
        }
        assert(bytes@.take(k as int) =~= bytes@);
    }
}

} // verus!
