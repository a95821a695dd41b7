//! The double-buffered text display model: a height-by-width grid of
//! characters with color attributes, written off-screen and handed to the
//! display hardware only as a finished frame.

use vstd::prelude::*;

verus! {

/// Rows of the text buffer.
pub const BUFFER_HEIGHT: usize = 25;

/// Columns of the text buffer.
pub const BUFFER_WIDTH: usize = 80;

/// The sixteen colors of the text-mode palette.
#[allow(dead_code)]
#[derive(Debug, Clone, Copy, PartialEq, Eq, Structural)]
pub enum Color {
    Black,
    Blue,
    Green,
    Cyan,
    Red,
    Magenta,
    Brown,
    LightGray,
    DarkGray,
    LightBlue,
    LightGreen,
    LightCyan,
    LightRed,
    Pink,
    Yellow,
    White,
}

impl Color {
    /// The palette index of this color.
    pub open spec fn spec_code(self) -> u8 {
        match self {
            Color::Black => 0,
            Color::Blue => 1,
            Color::Green => 2,
            Color::Cyan => 3,
            Color::Red => 4,
            Color::Magenta => 5,
            Color::Brown => 6,
            Color::LightGray => 7,
            Color::DarkGray => 8,
            Color::LightBlue => 9,
            Color::LightGreen => 10,
            Color::LightCyan => 11,
            Color::LightRed => 12,
            Color::Pink => 13,
            Color::Yellow => 14,
            Color::White => 15,
        }
    }

    /// The palette index of this color.
    pub fn code(self) -> (r: u8)
        ensures
            r == self.spec_code(),
            r < 16,
    {
        match self {
            Color::Black => 0,
            Color::Blue => 1,
            Color::Green => 2,
            Color::Cyan => 3,
            Color::Red => 4,
            Color::Magenta => 5,
            Color::Brown => 6,
            Color::LightGray => 7,
            Color::DarkGray => 8,
            Color::LightBlue => 9,
            Color::LightGreen => 10,
            Color::LightCyan => 11,
            Color::LightRed => 12,
            Color::Pink => 13,
            Color::Yellow => 14,
            Color::White => 15,
        }
    }
}

/// A packed attribute byte: background color in the high four bits,
/// foreground color in the low four.
#[derive(Debug, Clone, Copy, PartialEq, Eq, Structural)]
pub struct ColorCode(pub u8);

impl ColorCode {
    /// Packs a foreground and a background color into one attribute byte.
    pub fn new(foreground: Color, background: Color) -> (r: ColorCode)
        ensures
            r.0 == background.spec_code() * 16 + foreground.spec_code(),
    {
        let fg = foreground.code();
        let bg = background.code();
        proof {
            assert(bg < 16 && fg < 16 ==> (bg << 4u8) | fg == bg * 16 + fg) by (bit_vector);
        }
        ColorCode((bg << 4u8) | fg)
    }
}

/// One cell of the text grid: a byte of text and its color attribute.
#[derive(Debug, Clone, Copy, PartialEq, Eq, Structural)]
pub struct ScreenChar {
    pub ascii_character: u8,
    pub color_code: ColorCode,
}

/// The blank cell that clearing and scrolling write: a space drawn black
/// on black.
pub open spec fn blank_char() -> ScreenChar {
    ScreenChar { ascii_character: 32, color_code: ColorCode(0) }
}

/// Builds the blank cell.
pub fn make_blank_char() -> (r: ScreenChar)
    ensures
        r == blank_char(),
{
    ScreenChar { ascii_character: 32, color_code: ColorCode::new(Color::Black, Color::Black) }
}

/// A full-height, full-width grid of cells.
pub open spec fn grid_wf(g: Seq<Seq<ScreenChar>>) -> bool {
    &&& g.len() == BUFFER_HEIGHT
    &&& forall|r: int| 0 <= r < g.len() ==> (#[trigger] g[r]).len() == BUFFER_WIDTH
}

/// A row of blank cells.
pub open spec fn row_blank(row: Seq<ScreenChar>) -> bool {
    forall|c: int| 0 <= c < row.len() ==> #[trigger] row[c] == blank_char()
}

/// The off-screen frame: drawn cell by cell, then handed to the display
/// as a whole.
pub struct DoubleBuffer {
    chars: Vec<Vec<ScreenChar>>,
}

impl View for DoubleBuffer {
    type V = Seq<Seq<ScreenChar>>;

    closed spec fn view(&self) -> Seq<Seq<ScreenChar>> {
        self.chars@.map_values(|row: Vec<ScreenChar>| row@)
    }
}

/// The view of a frame reads each row through its own view.
proof fn lemma_view_bridge(b: &DoubleBuffer)
    ensures
        b@.len() == b.chars@.len(),
        forall|r: int| 0 <= r < b.chars@.len() ==> b@[r] == (#[trigger] b.chars@[r])@,
{
}

impl DoubleBuffer {
    /// A frame of blank cells.
    pub fn new() -> (r: Self)
        ensures
            grid_wf(r@),
            forall|row: int| 0 <= row < r@.len() ==> row_blank(#[trigger] r@[row]),
    {
        let mut chars: Vec<Vec<ScreenChar>> = Vec::new();
        let mut row: usize = 0;
        while row < BUFFER_HEIGHT
            invariant
                0 <= row <= BUFFER_HEIGHT,
                chars@.len() == row,
                forall|r: int| 0 <= r < row ==> (#[trigger] chars@[r])@.len() == BUFFER_WIDTH,
                forall|r: int| 0 <= r < row ==> row_blank((#[trigger] chars@[r])@),
            decreases BUFFER_HEIGHT - row,
        {
            let mut line: Vec<ScreenChar> = Vec::new();
            let mut col: usize = 0;
            while col < BUFFER_WIDTH
                invariant
                    0 <= col <= BUFFER_WIDTH,
                    line@.len() == col,
                    forall|c: int| 0 <= c < col ==> #[trigger] line@[c] == blank_char(),
                decreases BUFFER_WIDTH - col,
            {
                line.push(make_blank_char());
                col = col + 1;
            }
            chars.push(line);
            row = row + 1;
        }
        let r = DoubleBuffer { chars };
        proof {
            lemma_view_bridge(&r);
        }
        r
    }

    /// Blanks the whole frame.
    pub fn clear(&mut self)
        requires
            grid_wf(old(self)@),
        ensures
            grid_wf(final(self)@),
            forall|row: int| 0 <= row < final(self)@.len() ==> row_blank(#[trigger] final(self)@[row]),
    {
        let mut row: usize = 0;
        while row < BUFFER_HEIGHT
            invariant
                grid_wf(self@),
                0 <= row <= BUFFER_HEIGHT,
                forall|r: int| 0 <= r < row ==> row_blank(#[trigger] self@[r]),
            decreases BUFFER_HEIGHT - row,
        {
            let mut col: usize = 0;
            while col < BUFFER_WIDTH
                invariant
                    grid_wf(self@),
                    0 <= row < BUFFER_HEIGHT,
                    0 <= col <= BUFFER_WIDTH,
                    forall|r: int| 0 <= r < row ==> row_blank(#[trigger] self@[r]),
                    forall|c: int| 0 <= c < col ==> #[trigger] self@[row as int][c] == blank_char(),
                decreases BUFFER_WIDTH - col,
            {
                proof {
                    lemma_view_bridge(&*self);
                }
                self.chars[row][col] = make_blank_char();
                proof {
                    lemma_view_bridge(&*self);
                }
                col = col + 1;
            }
            row = row + 1;
        }
    }

    /// Draws one cell, when the position is on the grid; positions off
    /// the grid are ignored.
    pub fn write_char(&mut self, row: usize, col: usize, char_byte: u8, color_code: ColorCode)
        requires
            grid_wf(old(self)@),
        ensures
            grid_wf(final(self)@),
            row < BUFFER_HEIGHT && col < BUFFER_WIDTH ==> final(self)@ == old(self)@.update(
                row as int,
                old(self)@[row as int].update(
                    col as int,
                    ScreenChar { ascii_character: char_byte, color_code },
                ),
            ),
            !(row < BUFFER_HEIGHT && col < BUFFER_WIDTH) ==> final(self)@ == old(self)@,
    {
        if row < BUFFER_HEIGHT && col < BUFFER_WIDTH {
            proof {
                lemma_view_bridge(&*self);
            }
            self.chars[row][col] = ScreenChar { ascii_character: char_byte, color_code };
            proof {
                lemma_view_bridge(&*self);
                assert(self@ =~~= old(self)@.update(
                    row as int,
                    old(self)@[row as int].update(
                        col as int,
                        ScreenChar { ascii_character: char_byte, color_code },
                    ),
                ));
            }
        }
    }

    /// Scrolls the frame one line up: every row moves up one place and
    /// the bottom row becomes blank.
    pub fn scroll_up(&mut self)
        requires
            grid_wf(old(self)@),
        ensures
            grid_wf(final(self)@),
            forall|r: int|
                0 <= r < BUFFER_HEIGHT - 1 ==> #[trigger] final(self)@[r] == old(self)@[r + 1],
            row_blank(final(self)@[BUFFER_HEIGHT - 1]),
    {
        let mut row: usize = 1;
        while row < BUFFER_HEIGHT
            invariant
                grid_wf(self@),
                1 <= row <= BUFFER_HEIGHT,
                forall|r: int| 0 <= r < row - 1 ==> #[trigger] self@[r] == old(self)@[r + 1],
                forall|r: int| row - 1 <= r < BUFFER_HEIGHT ==> #[trigger] self@[r] == old(self)@[r],
            decreases BUFFER_HEIGHT - row,
        {
            proof {
                lemma_view_bridge(&*self);
            }
            let moved = self.chars[row].clone();
            proof {
                assert(moved@ == self@[row as int]);
            }
            self.chars[row - 1] = moved;
            proof {
                lemma_view_bridge(&*self);
            }
            row = row + 1;
        }
        let mut col: usize = 0;
        while col < BUFFER_WIDTH
            invariant
                grid_wf(self@),
                0 <= col <= BUFFER_WIDTH,
                forall|r: int| 0 <= r < BUFFER_HEIGHT - 1 ==> #[trigger] self@[r] == old(self)@[r + 1],
                forall|c: int|
                    0 <= c < col ==> #[trigger] self@[BUFFER_HEIGHT - 1][c] == blank_char(),
            decreases BUFFER_WIDTH - col,
        {
            proof {
                lemma_view_bridge(&*self);
            }
            self.chars[BUFFER_HEIGHT - 1][col] = make_blank_char();
            proof {
                lemma_view_bridge(&*self);
            }
            col = col + 1;
        }
    }

    /// The frame's cells, row by row, for whatever presents the frame.
    pub fn cell(&self, row: usize, col: usize) -> (r: ScreenChar)
        requires
            grid_wf(self@),
            row < BUFFER_HEIGHT,
            col < BUFFER_WIDTH,
        ensures
            r == self@[row as int][col as int],
    {
        proof {
            lemma_view_bridge(self);
        }
        self.chars[row][col]
    }
}

} // verus!
