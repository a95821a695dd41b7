//! The in-memory text terminal: a scrolling character grid, a keyboard
//! scancode state machine with a line editor, and a command shell.
//!
//! The terminal owns its character grid and a queue of raw scancodes; the
//! surrounding runtime feeds the queue from the keyboard and presents
//! finished frames on the display.

use vstd::prelude::*;
use vstd::string::StrSliceExecFns;
use vstd::string::StringExecFns;
use crate::allocator::MemoryStats;
use crate::text::split_tokens;
use crate::text::str_eq;
use crate::text::u64_to_string;
use crate::text::spec_dec;
use crate::vga_buffer::DoubleBuffer;
use crate::vga_buffer::grid_wf as vga_grid_wf;

verus! {

/// Rows of the terminal grid.
pub const BUFFER_HEIGHT: usize = 25;

/// Columns of the terminal grid.
pub const BUFFER_WIDTH: usize = 80;

/// The sixteen colors of the text-mode palette.
#[allow(dead_code)]
#[derive(Debug, Clone, Copy, PartialEq, Eq, Structural)]
pub enum Color {
    Black,
    Blue,
    Green,
    Cyan,
    Red,
    Magenta,
    Brown,
    LightGray,
    DarkGray,
    LightBlue,
    LightGreen,
    LightCyan,
    LightRed,
    Pink,
    Yellow,
    White,
}

impl Color {
    /// The palette index of this color.
    pub open spec fn spec_code(self) -> u8 {
        match self {
            Color::Black => 0,
            Color::Blue => 1,
            Color::Green => 2,
            Color::Cyan => 3,
            Color::Red => 4,
            Color::Magenta => 5,
            Color::Brown => 6,
            Color::LightGray => 7,
            Color::DarkGray => 8,
            Color::LightBlue => 9,
            Color::LightGreen => 10,
            Color::LightCyan => 11,
            Color::LightRed => 12,
            Color::Pink => 13,
            Color::Yellow => 14,
            Color::White => 15,
        }
    }

    /// The palette index of this color.
    pub fn code(self) -> (r: u8)
        ensures
            r == self.spec_code(),
            r < 16,
    {
        match self {
            Color::Black => 0,
            Color::Blue => 1,
            Color::Green => 2,
            Color::Cyan => 3,
            Color::Red => 4,
            Color::Magenta => 5,
            Color::Brown => 6,
            Color::LightGray => 7,
            Color::DarkGray => 8,
            Color::LightBlue => 9,
            Color::LightGreen => 10,
            Color::LightCyan => 11,
            Color::LightRed => 12,
            Color::Pink => 13,
            Color::Yellow => 14,
            Color::White => 15,
        }
    }
}

/// A packed attribute byte: background color in the high four bits,
/// foreground color in the low four.
#[derive(Debug, Clone, Copy, PartialEq, Eq, Structural)]
pub struct ColorCode(pub u8);

impl ColorCode {
    /// Packs a foreground and a background color into one attribute byte.
    pub fn new(foreground: Color, background: Color) -> (r: ColorCode)
        ensures
            r.0 == background.spec_code() * 16 + foreground.spec_code(),
    {
        let fg = foreground.code();
        let bg = background.code();
        proof {
            assert(bg < 16 && fg < 16 ==> (bg << 4u8) | fg == bg * 16 + fg) by (bit_vector);
        }
        ColorCode((bg << 4u8) | fg)
    }
}

/// One cell of the terminal grid.
#[derive(Debug, Clone, Copy, PartialEq, Eq, Structural)]
pub struct ScreenChar {
    pub ascii_character: u8,
    pub color_code: ColorCode,
}

/// The blank cell that clearing and scrolling write.
pub open spec fn term_blank() -> ScreenChar {
    ScreenChar { ascii_character: 32, color_code: ColorCode(0) }
}

/// A row of blank cells.
pub open spec fn blank_row() -> Seq<ScreenChar> {
    Seq::new(BUFFER_WIDTH as nat, |c: int| term_blank())
}

/// A full-height, full-width terminal grid.
pub open spec fn term_grid_wf(g: Seq<Seq<ScreenChar>>) -> bool {
    &&& g.len() == BUFFER_HEIGHT
    &&& forall|r: int| 0 <= r < g.len() ==> (#[trigger] g[r]).len() == BUFFER_WIDTH
}

/// The grid after scrolling one line up: every row moves up one place and
/// the bottom row is blank.
pub open spec fn scrolled(g: Seq<Seq<ScreenChar>>) -> Seq<Seq<ScreenChar>> {
    Seq::new(
        g.len(),
        |r: int|
            if r < g.len() - 1 {
                g[r + 1]
            } else {
                blank_row()
            },
    )
}

/// What writing one byte does to the grid and the cursor column: a line
/// feed scrolls and returns the cursor; any other byte lands on the
/// bottom row at the cursor, after a scroll when the row is full.
pub open spec fn spec_write_byte(
    g: Seq<Seq<ScreenChar>>,
    col: int,
    color: ColorCode,
    byte: u8,
) -> (Seq<Seq<ScreenChar>>, int) {
    if byte == 10 {
        (scrolled(g), 0)
    } else {
        let g1 = if col >= BUFFER_WIDTH {
            scrolled(g)
        } else {
            g
        };
        let c1: int = if col >= BUFFER_WIDTH {
            0
        } else {
            col
        };
        (
            g1.update(
                BUFFER_HEIGHT - 1,
                g1[BUFFER_HEIGHT - 1].update(c1, ScreenChar { ascii_character: byte, color_code: color }),
            ),
            c1 + 1,
        )
    }
}

/// Writing a run of bytes is writing them one after the other.
pub open spec fn spec_write_bytes(
    g: Seq<Seq<ScreenChar>>,
    col: int,
    color: ColorCode,
    bytes: Seq<u8>,
) -> (Seq<Seq<ScreenChar>>, int)
    decreases bytes.len(),
{
    if bytes.len() == 0 {
        (g, col)
    } else {
        let step = spec_write_byte(g, col, color, bytes[0]);
        spec_write_bytes(step.0, step.1, color, bytes.drop_first())
    }
}

/// The bytes a string is drawn as, character by character.
pub open spec fn str_bytes(s: Seq<char>) -> Seq<u8> {
    s.map_values(|c: char| c as u8)
}

/// Writing two runs one after the other is writing their concatenation.
pub proof fn lemma_write_bytes_append(
    g: Seq<Seq<ScreenChar>>,
    col: int,
    color: ColorCode,
    a: Seq<u8>,
    b: Seq<u8>,
)
    ensures
        spec_write_bytes(g, col, color, a + b) == ({
            let mid = spec_write_bytes(g, col, color, a);
            spec_write_bytes(mid.0, mid.1, color, b)
        }),
    decreases a.len(),
{
    if a.len() == 0 {
        assert(a + b =~= b);
    } else {
        assert((a + b)[0] == a[0]);
        assert((a + b).drop_first() =~= a.drop_first() + b);
        let step = spec_write_byte(g, col, color, a[0]);
        lemma_write_bytes_append(step.0, step.1, color, a.drop_first(), b);
    }
}

/// The interactive terminal: grid, cursor, text color, line editor state
/// and the queue of raw keyboard scancodes still to be handled.
pub struct Terminal {
    column_position: usize,
    color_code: ColorCode,
    buffer: Vec<Vec<ScreenChar>>,
    shift_pressed: bool,
    line: String,
    pending: Vec<u8>,
}

impl Terminal {
    /// The terminal's grid, row by row.
    pub closed spec fn grid(&self) -> Seq<Seq<ScreenChar>> {
        self.buffer@.map_values(|r: Vec<ScreenChar>| r@)
    }

    /// The cursor column on the bottom row.
    pub closed spec fn col(&self) -> int {
        self.column_position as int
    }

    /// The color new text is drawn in.
    pub closed spec fn color(&self) -> ColorCode {
        self.color_code
    }

    /// Whether a shift key is held down.
    pub closed spec fn shift(&self) -> bool {
        self.shift_pressed
    }

    /// The line being edited, as typed so far.
    pub closed spec fn line_view(&self) -> Seq<char> {
        self.line@
    }

    /// The scancodes queued and not yet handled, front first.
    pub closed spec fn pending_view(&self) -> Seq<u8> {
        self.pending@
    }

    /// A well-formed terminal: full grid, cursor on or just past the row.
    pub open spec fn wf(&self) -> bool {
        &&& term_grid_wf(self.grid())
        &&& 0 <= self.col() <= BUFFER_WIDTH
    }
}

/// The view of the grid reads each row through its own view.
proof fn lemma_grid_bridge(t: &Terminal)
    ensures
        t.grid().len() == t.buffer@.len(),
        forall|r: int| 0 <= r < t.buffer@.len() ==> t.grid()[r] == (#[trigger] t.buffer@[r])@,
{
}

impl Terminal {
    /// A fresh terminal: blank grid, cursor at the left edge, green text
    /// on black, nothing typed and nothing queued.
    pub fn new() -> (r: Self)
        ensures
            r.wf(),
            r.col() == 0,
            forall|row: int| 0 <= row < r.grid().len() ==> #[trigger] r.grid()[row] =~= blank_row(),
            r.line_view() == Seq::<char>::empty(),
            r.pending_view() == Seq::<u8>::empty(),
            !r.shift(),
            r.color().0 == Color::Black.spec_code() * 16 + Color::Green.spec_code(),
    {
        let mut buffer: Vec<Vec<ScreenChar>> = Vec::new();
        let mut row: usize = 0;
        while row < BUFFER_HEIGHT
            invariant
                0 <= row <= BUFFER_HEIGHT,
                buffer@.len() == row,
                forall|r: int| 0 <= r < row ==> (#[trigger] buffer@[r])@ =~= blank_row(),
            decreases BUFFER_HEIGHT - row,
        {
            let mut line: Vec<ScreenChar> = Vec::new();
            let mut col: usize = 0;
            while col < BUFFER_WIDTH
                invariant
                    0 <= col <= BUFFER_WIDTH,
                    line@.len() == col,
                    forall|c: int| 0 <= c < col ==> #[trigger] line@[c] == term_blank(),
                decreases BUFFER_WIDTH - col,
            {
                line.push(ScreenChar { ascii_character: 32, color_code: ColorCode(0) });
                col = col + 1;
            }
            proof {
                assert(line@ =~= blank_row());
            }
            buffer.push(line);
            row = row + 1;
        }
        let r = Terminal {
            column_position: 0,
            color_code: ColorCode::new(Color::Green, Color::Black),
            buffer,
            shift_pressed: false,
            line: String::new(),
            pending: Vec::new(),
        };
        proof {
            lemma_grid_bridge(&r);
        }
        r
    }

    /// Queues one raw keyboard scancode for the line editor.
    pub fn push_scancode(&mut self, scancode: u8)
        requires
            old(self).wf(),
        ensures
            final(self).wf(),
            final(self).pending_view() == old(self).pending_view().push(scancode),
            final(self).grid() == old(self).grid(),
            final(self).col() == old(self).col(),
            final(self).line_view() == old(self).line_view(),
            final(self).shift() == old(self).shift(),
            final(self).color() == old(self).color(),
    {
        self.pending.push(scancode);
    }

    /// Blanks the whole grid and returns the cursor to the left edge.
    pub fn clear(&mut self)
        requires
            old(self).wf(),
        ensures
            final(self).wf(),
            final(self).col() == 0,
            forall|row: int|
                0 <= row < final(self).grid().len() ==> #[trigger] final(self).grid()[row]
                    =~= blank_row(),
            final(self).line_view() == old(self).line_view(),
            final(self).pending_view() == old(self).pending_view(),
            final(self).shift() == old(self).shift(),
            final(self).color() == old(self).color(),
    {
        let mut row: usize = 0;
        while row < BUFFER_HEIGHT
            invariant
                self.wf(),
                0 <= row <= BUFFER_HEIGHT,
                forall|r: int| 0 <= r < row ==> #[trigger] self.grid()[r] =~= blank_row(),
                self.line@ == old(self).line@,
                self.pending@ == old(self).pending@,
                self.shift_pressed == old(self).shift_pressed,
                self.color_code == old(self).color_code,
                self.column_position == old(self).column_position,
            decreases BUFFER_HEIGHT - row,
        {
            let mut col: usize = 0;
            while col < BUFFER_WIDTH
                invariant
                    self.wf(),
                    0 <= row < BUFFER_HEIGHT,
                    0 <= col <= BUFFER_WIDTH,
                    forall|r: int| 0 <= r < row ==> #[trigger] self.grid()[r] =~= blank_row(),
                    forall|c: int|
                        0 <= c < col ==> #[trigger] self.grid()[row as int][c] == term_blank(),
                    self.line@ == old(self).line@,
                    self.pending@ == old(self).pending@,
                    self.shift_pressed == old(self).shift_pressed,
                    self.color_code == old(self).color_code,
                    self.column_position == old(self).column_position,
                decreases BUFFER_WIDTH - col,
            {
                proof {
                    lemma_grid_bridge(&*self);
                }
                self.buffer[row][col] = ScreenChar { ascii_character: 32, color_code: ColorCode(0) };
                proof {
                    lemma_grid_bridge(&*self);
                }
                col = col + 1;
            }
            row = row + 1;
        }
        self.column_position = 0;
    }

    /// Scrolls the grid one line up and returns the cursor to the left
    /// edge.
    pub fn new_line(&mut self)
        requires
            old(self).wf(),
        ensures
            final(self).wf(),
            final(self).grid() =~= scrolled(old(self).grid()),
            final(self).col() == 0,
            final(self).line_view() == old(self).line_view(),
            final(self).pending_view() == old(self).pending_view(),
            final(self).shift() == old(self).shift(),
            final(self).color() == old(self).color(),
    {
        let mut row: usize = 1;
        while row < BUFFER_HEIGHT
            invariant
                self.wf(),
                1 <= row <= BUFFER_HEIGHT,
                forall|r: int| 0 <= r < row - 1 ==> #[trigger] self.grid()[r] == old(self).grid()[r + 1],
                forall|r: int|
                    row - 1 <= r < BUFFER_HEIGHT ==> #[trigger] self.grid()[r] == old(self).grid()[r],
                self.line@ == old(self).line@,
                self.pending@ == old(self).pending@,
                self.shift_pressed == old(self).shift_pressed,
                self.color_code == old(self).color_code,
                self.column_position == old(self).column_position,
            decreases BUFFER_HEIGHT - row,
        {
            proof {
                lemma_grid_bridge(&*self);
            }
            let moved = self.buffer[row].clone();
            proof {
                assert(moved@ == self.grid()[row as int]);
            }
            self.buffer[row - 1] = moved;
            proof {
                lemma_grid_bridge(&*self);
            }
            row = row + 1;
        }
        let mut col: usize = 0;
        while col < BUFFER_WIDTH
            invariant
                self.wf(),
                0 <= col <= BUFFER_WIDTH,
                forall|r: int| 0 <= r < BUFFER_HEIGHT - 1 ==> #[trigger] self.grid()[r] == old(self).grid()[r + 1],
                forall|c: int|
                    0 <= c < col ==> #[trigger] self.grid()[BUFFER_HEIGHT - 1][c] == term_blank(),
                self.line@ == old(self).line@,
                self.pending@ == old(self).pending@,
                self.shift_pressed == old(self).shift_pressed,
                self.color_code == old(self).color_code,
                self.column_position == old(self).column_position,
            decreases BUFFER_WIDTH - col,
        {
            proof {
                lemma_grid_bridge(&*self);
            }
            self.buffer[BUFFER_HEIGHT - 1][col] = ScreenChar {
                ascii_character: 32,
                color_code: ColorCode(0),
            };
            proof {
                lemma_grid_bridge(&*self);
            }
            col = col + 1;
        }
        self.column_position = 0;
        proof {
            assert(self.grid()[BUFFER_HEIGHT - 1] =~= blank_row());
            assert(self.grid() =~= scrolled(old(self).grid()));
        }
    }

    /// Writes one byte: a line feed scrolls, any other byte lands at the
    /// cursor on the bottom row, scrolling first when the row is full.
    pub fn write_byte(&mut self, byte: u8)
        requires
            old(self).wf(),
        ensures
            final(self).wf(),
            (final(self).grid(), final(self).col()) == spec_write_byte(
                old(self).grid(),
                old(self).col(),
                old(self).color(),
                byte,
            ),
            final(self).line_view() == old(self).line_view(),
            final(self).pending_view() == old(self).pending_view(),
            final(self).shift() == old(self).shift(),
            final(self).color() == old(self).color(),
    {
        if byte == 10 {
            self.new_line();
            proof {
                assert((final(self).grid(), final(self).col()) == spec_write_byte(
                    old(self).grid(),
                    old(self).col(),
                    old(self).color(),
                    byte,
                ));
            }
        } else {
            if self.column_position >= BUFFER_WIDTH {
                self.new_line();
            }
            let row = BUFFER_HEIGHT - 1;
            let col = self.column_position;
            proof {
                lemma_grid_bridge(&*self);
            }
            let ghost g1 = self.grid();
            self.buffer[row][col] = ScreenChar { ascii_character: byte, color_code: self.color_code };
            proof {
                lemma_grid_bridge(&*self);
                assert(self.grid() =~= g1.update(
                    row as int,
                    g1[row as int].update(
                        col as int,
                        ScreenChar { ascii_character: byte, color_code: self.color_code },
                    ),
                ));
            }
            self.column_position = self.column_position + 1;
        }
    }

    /// Writes a string character by character.
    pub fn write_str(&mut self, s: &str)
        requires
            old(self).wf(),
        ensures
            final(self).wf(),
            (final(self).grid(), final(self).col()) == spec_write_bytes(
                old(self).grid(),
                old(self).col(),
                old(self).color(),
                str_bytes(s@),
            ),
            final(self).line_view() == old(self).line_view(),
            final(self).pending_view() == old(self).pending_view(),
            final(self).shift() == old(self).shift(),
            final(self).color() == old(self).color(),
    {
        let n = s.unicode_len();
        let mut i: usize = 0;
        proof {
            assert(str_bytes(s@).skip(0) =~= str_bytes(s@));
        }
        while i < n
            invariant
                self.wf(),
                n == s@.len(),
                0 <= i <= n,
                spec_write_bytes(self.grid(), self.col(), self.color_code, str_bytes(s@).skip(i as int))
                    == spec_write_bytes(
                    old(self).grid(),
                    old(self).col(),
                    old(self).color(),
                    str_bytes(s@),
                ),
                self.color_code == old(self).color_code,
                self.line@ == old(self).line@,
                self.pending@ == old(self).pending@,
                self.shift_pressed == old(self).shift_pressed,
            decreases n - i,
        {
            let c = s.get_char(i);
            proof {
                assert(str_bytes(s@).skip(i as int)[0] == c as u8);
                assert(str_bytes(s@).skip(i as int).drop_first() =~= str_bytes(s@).skip(i as int + 1));
            }
            self.write_byte(c as u8);
            i = i + 1;
        }
        proof {
            assert(str_bytes(s@).skip(n as int) =~= Seq::<u8>::empty());
        }
    }

    /// Copies the grid into a fresh off-screen frame for the display.
    pub fn flush(&self) -> (r: DoubleBuffer)
        requires
            self.wf(),
        ensures
            vga_grid_wf(r@),
            forall|row: int, col: int|
                0 <= row < BUFFER_HEIGHT && 0 <= col < BUFFER_WIDTH ==> #[trigger] r@[row][col]
                    == vga_cell(self.grid()[row][col]),
    {
        let mut db = DoubleBuffer::new();
        let mut row: usize = 0;
        while row < BUFFER_HEIGHT
            invariant
                self.wf(),
                vga_grid_wf(db@),
                0 <= row <= BUFFER_HEIGHT,
                forall|r: int, c: int|
                    0 <= r < row && 0 <= c < BUFFER_WIDTH ==> #[trigger] db@[r][c] == vga_cell(
                        self.grid()[r][c],
                    ),
            decreases BUFFER_HEIGHT - row,
        {
            let mut col: usize = 0;
            while col < BUFFER_WIDTH
                invariant
                    self.wf(),
                    vga_grid_wf(db@),
                    0 <= row < BUFFER_HEIGHT,
                    0 <= col <= BUFFER_WIDTH,
                    forall|r: int, c: int|
                        0 <= r < row && 0 <= c < BUFFER_WIDTH ==> #[trigger] db@[r][c] == vga_cell(
                            self.grid()[r][c],
                        ),
                    forall|c: int|
                        0 <= c < col ==> #[trigger] db@[row as int][c] == vga_cell(
                            self.grid()[row as int][c],
                        ),
                decreases BUFFER_WIDTH - col,
            {
                proof {
                    lemma_grid_bridge(self);
                }
                let sc = self.buffer[row][col];
                db.write_char(
                    row,
                    col,
                    sc.ascii_character,
                    crate::vga_buffer::ColorCode(sc.color_code.0),
                );
                col = col + 1;
            }
            row = row + 1;
        }
        db
    }
}

/// The character a scancode types without shift held, `0` for keys that
/// type nothing.
pub open spec fn spec_ascii_lower(sc: u8) -> u8 {
    match sc {
        2u8 => 49,  // 1
        3u8 => 50,  // 2
        4u8 => 51,  // 3
        5u8 => 52,  // 4
        6u8 => 53,  // 5
        7u8 => 54,  // 6
        8u8 => 55,  // 7
        9u8 => 56,  // 8
        10u8 => 57,  // 9
        11u8 => 48,  // 0
        12u8 => 45,  // -
        13u8 => 61,  // =
        14u8 => 8,  // backspace
        15u8 => 9,  // tab
        16u8 => 113,  // q
        17u8 => 119,  // w
        18u8 => 101,  // e
        19u8 => 114,  // r
        20u8 => 116,  // t
        21u8 => 121,  // y
        22u8 => 117,  // u
        23u8 => 105,  // i
        24u8 => 111,  // o
        25u8 => 112,  // p
        26u8 => 91,  // [
        27u8 => 93,  // ]
        28u8 => 13,  // enter
        30u8 => 97,  // a
        31u8 => 115,  // s
        32u8 => 100,  // d
        33u8 => 102,  // f
        34u8 => 103,  // g
        35u8 => 104,  // h
        36u8 => 106,  // j
        37u8 => 107,  // k
        38u8 => 108,  // l
        39u8 => 59,  // ;
        40u8 => 39,  // apostrophe
        41u8 => 96,  // backtick
        43u8 => 92,  // backslash
        44u8 => 122,  // z
        45u8 => 120,  // x
        46u8 => 99,  // c
        47u8 => 118,  // v
        48u8 => 98,  // b
        49u8 => 110,  // n
        50u8 => 109,  // m
        51u8 => 44,  // ,
        52u8 => 46,  // .
        53u8 => 47,  // /
        55u8 => 42,  // keypad *
        57u8 => 32,  // space
        71u8 => 55,  // keypad 7
        72u8 => 56,  // keypad 8
        73u8 => 57,  // keypad 9
        74u8 => 45,  // keypad -
        75u8 => 52,  // keypad 4
        76u8 => 53,  // keypad 5
        77u8 => 54,  // keypad 6
        78u8 => 43,  // keypad +
        79u8 => 49,  // keypad 1
        80u8 => 50,  // keypad 2
        81u8 => 51,  // keypad 3
        82u8 => 48,  // keypad 0
        83u8 => 46,  // keypad .
        _ => 0,
    }
}

/// The character a scancode types with shift held, `0` for keys that
/// type nothing.
pub open spec fn spec_ascii_upper(sc: u8) -> u8 {
    match sc {
        2u8 => 33,  // !
        3u8 => 64,  // @
        4u8 => 35,  // #
        5u8 => 36,  // $
        6u8 => 37,  // %
        7u8 => 94,  // ^
        8u8 => 38,  // &
        9u8 => 42,  // *
        10u8 => 40,  // (
        11u8 => 41,  // )
        12u8 => 95,  // _
        13u8 => 43,  // +
        14u8 => 8,  // backspace
        15u8 => 9,  // tab
        16u8 => 81,  // Q
        17u8 => 87,  // W
        18u8 => 69,  // E
        19u8 => 82,  // R
        20u8 => 84,  // T
        21u8 => 89,  // Y
        22u8 => 85,  // U
        23u8 => 73,  // I
        24u8 => 79,  // O
        25u8 => 80,  // P
        26u8 => 123,  // {
        27u8 => 125,  // }
        28u8 => 13,  // enter
        30u8 => 65,  // A
        31u8 => 83,  // S
        32u8 => 68,  // D
        33u8 => 70,  // F
        34u8 => 71,  // G
        35u8 => 72,  // H
        36u8 => 74,  // J
        37u8 => 75,  // K
        38u8 => 76,  // L
        39u8 => 58,  // :
        40u8 => 34,  // double quote
        41u8 => 126,  // ~
        43u8 => 124,  // |
        44u8 => 90,  // Z
        45u8 => 88,  // X
        46u8 => 67,  // C
        47u8 => 86,  // V
        48u8 => 66,  // B
        49u8 => 78,  // N
        50u8 => 77,  // M
        51u8 => 60,  // <
        52u8 => 62,  // >
        53u8 => 63,  // ?
        55u8 => 42,  // keypad *
        57u8 => 32,  // space
        71u8 => 55,  // keypad 7
        72u8 => 56,  // keypad 8
        73u8 => 57,  // keypad 9
        74u8 => 45,  // keypad -
        75u8 => 52,  // keypad 4
        76u8 => 53,  // keypad 5
        77u8 => 54,  // keypad 6
        78u8 => 43,  // keypad +
        79u8 => 49,  // keypad 1
        80u8 => 50,  // keypad 2
        81u8 => 51,  // keypad 3
        82u8 => 48,  // keypad 0
        83u8 => 46,  // keypad .
        _ => 0,
    }
}

/// The character a scancode types under the given shift state.
pub open spec fn spec_scancode_ascii(sc: u8, shift: bool) -> u8 {
    if shift {
        spec_ascii_upper(sc)
    } else {
        spec_ascii_lower(sc)
    }
}

/// Looks a scancode up in the keyboard map.
pub fn scancode_ascii(sc: u8, shift: bool) -> (r: u8)
    ensures
        r == spec_scancode_ascii(sc, shift),
{
    if shift {
        match sc {
            2u8 => 33,
            3u8 => 64,
            4u8 => 35,
            5u8 => 36,
            6u8 => 37,
            7u8 => 94,
            8u8 => 38,
            9u8 => 42,
            10u8 => 40,
            11u8 => 41,
            12u8 => 95,
            13u8 => 43,
            14u8 => 8,
            15u8 => 9,
            16u8 => 81,
            17u8 => 87,
            18u8 => 69,
            19u8 => 82,
            20u8 => 84,
            21u8 => 89,
            22u8 => 85,
            23u8 => 73,
            24u8 => 79,
            25u8 => 80,
            26u8 => 123,
            27u8 => 125,
            28u8 => 13,
            30u8 => 65,
            31u8 => 83,
            32u8 => 68,
            33u8 => 70,
            34u8 => 71,
            35u8 => 72,
            36u8 => 74,
            37u8 => 75,
            38u8 => 76,
            39u8 => 58,
            40u8 => 34,
            41u8 => 126,
            43u8 => 124,
            44u8 => 90,
            45u8 => 88,
            46u8 => 67,
            47u8 => 86,
            48u8 => 66,
            49u8 => 78,
            50u8 => 77,
            51u8 => 60,
            52u8 => 62,
            53u8 => 63,
            55u8 => 42,
            57u8 => 32,
            71u8 => 55,
            72u8 => 56,
            73u8 => 57,
            74u8 => 45,
            75u8 => 52,
            76u8 => 53,
            77u8 => 54,
            78u8 => 43,
            79u8 => 49,
            80u8 => 50,
            81u8 => 51,
            82u8 => 48,
            83u8 => 46,
            _ => 0,
        }
    } else {
        match sc {
            2u8 => 49,
            3u8 => 50,
            4u8 => 51,
            5u8 => 52,
            6u8 => 53,
            7u8 => 54,
            8u8 => 55,
            9u8 => 56,
            10u8 => 57,
            11u8 => 48,
            12u8 => 45,
            13u8 => 61,
            14u8 => 8,
            15u8 => 9,
            16u8 => 113,
            17u8 => 119,
            18u8 => 101,
            19u8 => 114,
            20u8 => 116,
            21u8 => 121,
            22u8 => 117,
            23u8 => 105,
            24u8 => 111,
            25u8 => 112,
            26u8 => 91,
            27u8 => 93,
            28u8 => 13,
            30u8 => 97,
            31u8 => 115,
            32u8 => 100,
            33u8 => 102,
            34u8 => 103,
            35u8 => 104,
            36u8 => 106,
            37u8 => 107,
            38u8 => 108,
            39u8 => 59,
            40u8 => 39,
            41u8 => 96,
            43u8 => 92,
            44u8 => 122,
            45u8 => 120,
            46u8 => 99,
            47u8 => 118,
            48u8 => 98,
            49u8 => 110,
            50u8 => 109,
            51u8 => 44,
            52u8 => 46,
            53u8 => 47,
            55u8 => 42,
            57u8 => 32,
            71u8 => 55,
            72u8 => 56,
            73u8 => 57,
            74u8 => 45,
            75u8 => 52,
            76u8 => 53,
            77u8 => 54,
            78u8 => 43,
            79u8 => 49,
            80u8 => 50,
            81u8 => 51,
            82u8 => 48,
            83u8 => 46,
            _ => 0,
        }
    }
}

/// The line editor's state between two scancodes: the line typed so far,
/// whether shift is held, and the last scancode accepted (for debounce).
#[verifier::ext_equal]
pub ghost struct LineState {
    pub line: Seq<char>,
    pub shift: bool,
    pub last: u8,
}

/// Whether this scancode completes the line: a fresh press of the enter
/// key.
pub open spec fn scan_done(st: LineState, sc: u8) -> bool {
    sc < 128 && sc != 0 && sc != st.last && sc == 28
}

/// One scancode's effect on the line editor, for a scancode that does not
/// complete the line.
///
/// A release event (high bit set) only clears the shift state when a
/// shift key went up; a repeat of the last accepted scancode is ignored;
/// backspace drops the last character; tab types four spaces; shift keys
/// set the shift state; the other control-zone scancodes are ignored; a
/// printable key appends its character.
pub open spec fn spec_scan_step(st: LineState, sc: u8) -> LineState {
    if sc >= 128 {
        LineState {
            line: st.line,
            shift: if sc == 170 || sc == 182 {
                false
            } else {
                st.shift
            },
            last: st.last,
        }
    } else if sc == 0 || sc == st.last {
        st
    } else if sc == 14 {
        LineState {
            line: if st.line.len() > 0 {
                st.line.drop_last()
            } else {
                st.line
            },
            shift: st.shift,
            last: sc,
        }
    } else if sc == 15 {
        LineState { line: st.line + seq![' ', ' ', ' ', ' '], shift: st.shift, last: sc }
    } else if sc == 42 || sc == 54 {
        LineState { line: st.line, shift: true, last: sc }
    } else if (1 <= sc && sc <= 13) || (26 <= sc && sc <= 27) || (29 <= sc && sc <= 31) || sc
        >= 55 {
        LineState { line: st.line, shift: st.shift, last: sc }
    } else {
        let a = spec_scancode_ascii(sc, st.shift);
        LineState {
            line: if 32 <= a && a <= 126 {
                st.line.push(a as char)
            } else {
                st.line
            },
            shift: st.shift,
            last: sc,
        }
    }
}

/// Running the line editor over a queue of scancodes: the state after,
/// the scancodes left unread, and the completed line if enter was
/// reached.
pub open spec fn spec_read_line(st: LineState, scs: Seq<u8>) -> (LineState, Seq<u8>, Option<
    Seq<char>,
>)
    decreases scs.len(),
{
    if scs.len() == 0 {
        (st, scs, None)
    } else if scan_done(st, scs[0]) {
        (
            LineState { line: Seq::empty(), shift: st.shift, last: st.last },
            scs.drop_first(),
            Some(st.line),
        )
    } else {
        spec_read_line(spec_scan_step(st, scs[0]), scs.drop_first())
    }
}

impl Terminal {
    /// Runs the line editor over the queued scancodes.
    ///
    /// Consumes scancodes from the front of the queue, editing the
    /// current line and echoing to the grid, until a fresh enter press
    /// completes the line; returns `None` when the queue runs out first,
    /// with the partial line kept for the next call.
    #[verifier::loop_isolation(false)]
    pub fn read_line(&mut self) -> (r: Option<String>)
        requires
            old(self).wf(),
        ensures
            final(self).wf(),
            ({
                let st0 = LineState {
                    line: old(self).line_view(),
                    shift: old(self).shift(),
                    last: 0u8,
                };
                let out = spec_read_line(st0, old(self).pending_view());
                &&& final(self).line_view() == out.0.line
                &&& final(self).shift() == out.0.shift
                &&& final(self).pending_view() == out.1
                &&& match r {
                    None => out.2 is None,
                    Some(l) => out.2 == Some(l@),
                }
            }),
            final(self).color() == old(self).color(),
    {
        let ghost st0 = LineState { line: old(self).line_view(), shift: old(self).shift(), last: 0u8 };
        let ghost goal = spec_read_line(st0, old(self).pending_view());
        let mut last: u8 = 0;
        while !self.pending.is_empty()
            invariant
                self.wf(),
                self.color_code == old(self).color_code,
                spec_read_line(
                    LineState { line: self.line@, shift: self.shift_pressed, last },
                    self.pending@,
                ) == goal,
            decreases self.pending@.len(),
        {
            let ghost st = LineState { line: self.line@, shift: self.shift_pressed, last };
            let ghost pend0 = self.pending@;
            let sc = self.pending.remove(0);
            proof {
                assert(pend0[0] == sc);
                assert(pend0.drop_first() =~= self.pending@);
            }
            if sc >= 128 {
                if sc == 170 || sc == 182 {
                    self.shift_pressed = false;
                }
                proof {
                    assert(LineState { line: self.line@, shift: self.shift_pressed, last }
                        =~= spec_scan_step(st, sc));
                }
            } else if sc == 0 || sc == last {
                // Nothing accepted: either the port idles or the key repeats.
            } else if sc == 28 {
                // A fresh enter press completes the line.
                self.write_byte(10);
                let l = self.line.clone();
                self.line = String::new();
                proof {
                    assert(scan_done(st, sc));
                    assert(goal.0 =~= LineState { line: self.line@, shift: self.shift_pressed, last: st.last });
                    assert(goal.2 == Some(l@));
                }
                return Some(l);
            } else {
                last = sc;
                if sc == 14 {
                    // Backspace: drop the last character and wipe its cell.
                    if !self.line.as_str().is_empty() {
                        let shorter = crate::text::string_drop_last(self.line.as_str());
                        self.line = shorter;
                        self.write_byte(8);
                        self.write_byte(32);
                        self.write_byte(8);
                    }
                    proof {
                        assert(LineState { line: self.line@, shift: self.shift_pressed, last }
                            =~= spec_scan_step(st, sc));
                    }
                } else if sc == 15 {
                    // Tab types four spaces.
                    crate::text::push_char(&mut self.line, ' ');
                    self.write_byte(32);
                    crate::text::push_char(&mut self.line, ' ');
                    self.write_byte(32);
                    crate::text::push_char(&mut self.line, ' ');
                    self.write_byte(32);
                    crate::text::push_char(&mut self.line, ' ');
                    self.write_byte(32);
                    proof {
                        assert(self.line@ =~= st.line + seq![' ', ' ', ' ', ' ']);
                        assert(LineState { line: self.line@, shift: self.shift_pressed, last }
                            =~= spec_scan_step(st, sc));
                    }
                } else if sc == 42 || sc == 54 {
                    self.shift_pressed = true;
                    proof {
                        assert(LineState { line: self.line@, shift: self.shift_pressed, last }
                            =~= spec_scan_step(st, sc));
                    }
                } else if (1 <= sc && sc <= 13) || (26 <= sc && sc <= 27) || (29 <= sc && sc <= 31)
                    || sc >= 55 {
                    // Other control-zone keys type nothing.
                    proof {
                        assert(LineState { line: self.line@, shift: self.shift_pressed, last }
                            =~= spec_scan_step(st, sc));
                    }
                } else {
                    let a = scancode_ascii(sc, self.shift_pressed);
                    if 32 <= a && a <= 126 {
                        crate::text::push_char(&mut self.line, a as char);
                        self.write_byte(a);
                    } else {
                        // An unmapped key echoes a question mark.
                        self.write_byte(63);
                    }
                    proof {
                        assert(LineState { line: self.line@, shift: self.shift_pressed, last }
                            =~= spec_scan_step(st, sc));
                    }
                }
            }
        }
        None
    }
}

/// The display-side cell a terminal cell is presented as.
pub open spec fn vga_cell(sc: ScreenChar) -> crate::vga_buffer::ScreenChar {
    crate::vga_buffer::ScreenChar {
        ascii_character: sc.ascii_character,
        color_code: crate::vga_buffer::ColorCode(sc.color_code.0),
    }
}

// ---------------------------------------------------------------------------
// The bounded argument buffer, a fixed-capacity vector from the heapless
// crate, declared for the verifier and reached through trusted wrappers.
// ---------------------------------------------------------------------------

#[verifier::external_type_specification]
#[verifier::external_body]
#[verifier::reject_recursive_types(T)]
pub struct ExHeaplessVec<T, const N: usize>(heapless::Vec<T, N>);

/// What the bounded argument buffer holds, front first.
pub uninterp spec fn parts_contents(v: &heapless::Vec<String, 16>) -> Seq<Seq<char>>;

/// Relies on `heapless::Vec::new`: a fresh buffer holds nothing.
#[verifier::external_body]
fn parts_new() -> (r: heapless::Vec<String, 16>)
    ensures
        parts_contents(&r) == Seq::<Seq<char>>::empty(),
{
    heapless::Vec::new()
}

/// Relies on `heapless::Vec::push`: appends while below the capacity of
/// sixteen, and hands the item back unchanged once full.
#[verifier::external_body]
fn parts_push(v: &mut heapless::Vec<String, 16>, item: String) -> (r: Result<(), String>)
    ensures
        parts_contents(old(v)).len() < 16 ==> r is Ok && parts_contents(final(v))
            == parts_contents(old(v)).push(item@),
        parts_contents(old(v)).len() >= 16 ==> r is Err && parts_contents(final(v))
            == parts_contents(old(v)),
        r matches Err(it) ==> it@ == item@,
{
    v.push(item)
}

/// Relies on `heapless::Vec`'s slice view: the number of items held.
#[verifier::external_body]
fn parts_len(v: &heapless::Vec<String, 16>) -> (r: usize)
    ensures
        r == parts_contents(v).len(),
{
    v.len()
}

/// Relies on `heapless::Vec`'s slice view: the item at one position.
#[verifier::external_body]
fn parts_get<'a>(v: &'a heapless::Vec<String, 16>, i: usize) -> (r: &'a String)
    requires
        i < parts_contents(v).len(),
    ensures
        r@ == parts_contents(v)[i as int],
{
    &v[i]
}

// ---------------------------------------------------------------------------
// The command shell.
// ---------------------------------------------------------------------------

/// The names the shell dispatches on.
pub open spec fn known_command(tok: Seq<char>) -> bool {
    ||| tok == "help"@
    ||| tok == "clear"@
    ||| tok == "echo"@
    ||| tok == "ls"@
    ||| tok == "mk"@
    ||| tok == "rm"@
    ||| tok == "cd"@
    ||| tok == "mv"@
    ||| tok == "cp"@
    ||| tok == "meminfo"@
    ||| tok == "memstats"@
    ||| tok == "sysinfo"@
    ||| tok == "syshealth"@
}

/// The bytes the echo command writes for the arguments from position
/// `j` on: the arguments in order, one space between two of them.
pub open spec fn spec_echo_bytes(parts: Seq<Seq<char>>, j: int) -> Seq<u8>
    decreases parts.len() - j,
{
    if j < 1 || j >= parts.len() {
        Seq::empty()
    } else {
        (if j > 1 {
            seq![32u8]
        } else {
            Seq::<u8>::empty()
        }) + str_bytes(parts[j]) + spec_echo_bytes(parts, j + 1)
    }
}

/// The text one size is rendered as by the shell: the unit letter, and
/// one decimal place above a kibibyte.
pub open spec fn spec_format_size(size: u64) -> Seq<char> {
    if size >= 1048576 {
        spec_dec((size / 1048576) as nat) + seq!['.'] + seq![
            crate::text::digit_char(((size % 1048576) * 10 / 1048576) as nat),
        ] + seq!['M']
    } else if size >= 1024 {
        spec_dec((size / 1024) as nat) + seq!['.'] + seq![
            crate::text::digit_char(((size % 1024) * 10 / 1024) as nat),
        ] + seq!['K']
    } else {
        spec_dec(size as nat) + seq!['B']
    }
}

impl Terminal {
    /// Renders one size for a directory listing.
    pub fn format_size(&self, size: u64) -> (r: String)
        ensures
            r@ == spec_format_size(size),
    {
        if size >= 1048576 {
            let mut s = u64_to_string(size / 1048576);
            s.append(".");
            s.append(crate::text::digit_str((size % 1048576) * 10 / 1048576));
            s.append("M");
            proof {
                reveal_strlit(".");
                reveal_strlit("M");
                assert(s@ =~= spec_format_size(size));
            }
            s
        } else if size >= 1024 {
            let mut s = u64_to_string(size / 1024);
            s.append(".");
            s.append(crate::text::digit_str((size % 1024) * 10 / 1024));
            s.append("K");
            proof {
                reveal_strlit(".");
                reveal_strlit("K");
                assert(s@ =~= spec_format_size(size));
            }
            s
        } else {
            let mut s = u64_to_string(size);
            s.append("B");
            proof {
                reveal_strlit("B");
                assert(s@ =~= spec_format_size(size));
            }
            s
        }
    }

    /// Lists the sample directory, honouring `-l` and `-a`.
    pub fn handle_ls_command(&mut self, parts: &heapless::Vec<String, 16>)
        requires
            old(self).wf(),
        ensures
            final(self).wf(),
    {
        let device = crate::fs::MemoryBlockDevice::new();
        let mut fs = crate::fs::SimpleFileSystem::new(device);
        fs.init();

        let mut long_format = false;
        let mut show_all = false;
        let n = parts_len(parts);
        let mut i: usize = 1;
        while i < n
            invariant
                n == parts_contents(parts).len(),
                1 <= i,
            decreases n - i,
        {
            let p = parts_get(parts, i);
            if str_eq(p.as_str(), "-l") {
                long_format = true;
            } else if str_eq(p.as_str(), "-a") {
                show_all = true;
            }
            i = i + 1;
        }

        match crate::fs::FileSystem::list_directory(&fs, 0) {
            Ok(entries) => {
                let mut j: usize = 0;
                while j < entries.len()
                    invariant
                        self.wf(),
                        0 <= j <= entries@.len(),
                    decreases entries@.len() - j,
                {
                    let name: &String = &entries[j].0;
                    let is_dir: bool = entries[j].2;
                    let size: u64 = entries[j].3;
                    let hidden = name.as_str().unicode_len() > 0 && name.as_str().get_char(0)
                        == '.';
                    if show_all || !hidden {
                        if long_format {
                            let mut line = String::new();
                            if is_dir {
                                line.append("d");
                            } else {
                                line.append("-");
                            }
                            line.append(" rwxr-xr-x ");
                            let size_str = self.format_size(size);
                            line.append(size_str.as_str());
                            line.append(" ");
                            line.append(name.as_str());
                            line.append("\n");
                            self.write_str(line.as_str());
                        } else {
                            self.write_str(name.as_str());
                            self.write_byte(10);
                        }
                    }
                    j = j + 1;
                }
            },
            Err(e) => {
                self.write_str("Error: ");
                self.write_str(e);
                self.write_str("\n");
            },
        }
    }

    /// Creates a directory in the sample filesystem.
    pub fn handle_mk_command(&mut self, parts: &heapless::Vec<String, 16>)
        requires
            old(self).wf(),
        ensures
            final(self).wf(),
    {
        if parts_len(parts) < 2 {
            self.write_str("Usage: mk <directory_name>\n");
            return;
        }
        let dir_name = parts_get(parts, 1).clone();

        let device = crate::fs::MemoryBlockDevice::new();
        let mut fs = crate::fs::SimpleFileSystem::new(device);
        fs.init();

        match crate::fs::FileSystem::create_directory(&fs, dir_name.as_str(), 0) {
            Ok(_inode_id) => {
                self.write_str("Directory '");
                self.write_str(dir_name.as_str());
                self.write_str("' created successfully\n");
            },
            Err(e) => {
                self.write_str("Error: ");
                self.write_str(e);
                self.write_str("\n");
            },
        }
    }

    /// Removes a file or directory from the sample filesystem, asking
    /// for confirmation unless `-f` is given.
    pub fn handle_rm_command(&mut self, parts: &heapless::Vec<String, 16>)
        requires
            old(self).wf(),
        ensures
            final(self).wf(),
    {
        if parts_len(parts) < 2 {
            self.write_str("Usage: rm [-r] [-f] <name>\n");
            return;
        }
        let mut recursive = false;
        let mut force = false;
        let mut name = String::new();
        let mut have_name = false;

        let n = parts_len(parts);
        let mut i: usize = 1;
        while i < n
            invariant
                self.wf(),
                n == parts_contents(parts).len(),
                1 <= i,
            decreases n - i,
        {
            let p = parts_get(parts, i);
            if str_eq(p.as_str(), "-r") {
                recursive = true;
            } else if str_eq(p.as_str(), "-f") {
                force = true;
            } else {
                name = p.clone();
                have_name = true;
            }
            i = i + 1;
        }

        if !have_name || name.as_str().is_empty() {
            self.write_str("Error: No file or directory specified\n");
            return;
        }

        if !force {
            self.write_str("Are you sure you want to delete '");
            self.write_str(name.as_str());
            if recursive {
                self.write_str("' and all its contents? (y/N): ");
            } else {
                self.write_str("'? (y/N): ");
            }
            let confirmed = match self.read_line() {
                Some(response) => str_eq(response.as_str(), "y") || str_eq(
                    response.as_str(),
                    "Y",
                ),
                None => false,
            };
            if !confirmed {
                self.write_str("Deletion cancelled\n");
                return;
            }
        }

        let device = crate::fs::MemoryBlockDevice::new();
        let mut fs = crate::fs::SimpleFileSystem::new(device);
        fs.init();

        match crate::fs::FileSystem::delete_item(&fs, name.as_str(), recursive) {
            Ok(_) => {
                self.write_str("'");
                self.write_str(name.as_str());
                self.write_str("' deleted successfully\n");
            },
            Err(e) => {
                self.write_str("Error: ");
                self.write_str(e);
                self.write_str("\n");
            },
        }
    }

    /// Pretends to change directory: only the root, the parent and the
    /// current directory are recognised.
    pub fn handle_cd_command(&mut self, parts: &heapless::Vec<String, 16>)
        requires
            old(self).wf(),
        ensures
            final(self).wf(),
    {
        if parts_len(parts) < 2 {
            self.write_str("Usage: cd <directory_path>\n");
            return;
        }
        let path = parts_get(parts, 1).clone();
        if str_eq(path.as_str(), "/") || str_eq(path.as_str(), "..") || str_eq(
            path.as_str(),
            ".",
        ) {
            self.write_str("Changed directory to ");
            self.write_str(path.as_str());
            self.write_str("\n");
        } else {
            self.write_str("Directory '");
            self.write_str(path.as_str());
            self.write_str("' not found\n");
        }
    }

    /// Moves an item within the sample filesystem.
    pub fn handle_mv_command(&mut self, parts: &heapless::Vec<String, 16>)
        requires
            old(self).wf(),
        ensures
            final(self).wf(),
    {
        if parts_len(parts) < 3 {
            self.write_str("Usage: mv <source> <destination>\n");
            return;
        }
        let src = parts_get(parts, 1).clone();
        let dst = parts_get(parts, 2).clone();

        let device = crate::fs::MemoryBlockDevice::new();
        let mut fs = crate::fs::SimpleFileSystem::new(device);
        fs.init();

        match crate::fs::FileSystem::move_item(&fs, src.as_str(), dst.as_str()) {
            Ok(_) => {
                self.write_str("Moved '");
                self.write_str(src.as_str());
                self.write_str("' to '");
                self.write_str(dst.as_str());
                self.write_str("'\n");
            },
            Err(e) => {
                self.write_str("Error: ");
                self.write_str(e);
                self.write_str("\n");
            },
        }
    }

    /// Copies an item within the sample filesystem, honouring `-r`.
    pub fn handle_cp_command(&mut self, parts: &heapless::Vec<String, 16>)
        requires
            old(self).wf(),
        ensures
            final(self).wf(),
    {
        if parts_len(parts) < 3 {
            self.write_str("Usage: cp [-r] <source> <destination>\n");
            return;
        }
        let mut recursive = false;
        let mut arg_index: usize = 1;
        if str_eq(parts_get(parts, 1).as_str(), "-r") {
            recursive = true;
            arg_index = 2;
        }
        if parts_len(parts) < arg_index + 2 {
            self.write_str("Usage: cp [-r] <source> <destination>\n");
            return;
        }
        let src = parts_get(parts, arg_index).clone();
        let dst = parts_get(parts, arg_index + 1).clone();

        let device = crate::fs::MemoryBlockDevice::new();
        let mut fs = crate::fs::SimpleFileSystem::new(device);
        fs.init();

        match crate::fs::FileSystem::copy_item(&fs, src.as_str(), dst.as_str(), recursive) {
            Ok(_) => {
                self.write_str("Copied '");
                self.write_str(src.as_str());
                self.write_str("' to '");
                self.write_str(dst.as_str());
                if recursive {
                    self.write_str("' recursively\n");
                } else {
                    self.write_str("'\n");
                }
            },
            Err(e) => {
                self.write_str("Error: ");
                self.write_str(e);
                self.write_str("\n");
            },
        }
    }

    /// Shows the memory report for the given snapshot.
    pub fn handle_meminfo_command(&mut self, stats: &MemoryStats)
        requires
            old(self).wf(),
            crate::system_monitor::stats_wf(*stats),
        ensures
            final(self).wf(),
    {
        let monitor = crate::system_monitor::SystemMonitor::new(*stats);
        monitor.display_memory_info(self);
    }

    /// Shows the memory report plus the raw call counters and the
    /// average request size.
    pub fn handle_memstats_command(&mut self, stats: &MemoryStats)
        requires
            old(self).wf(),
            crate::system_monitor::stats_wf(*stats),
        ensures
            final(self).wf(),
    {
        let monitor = crate::system_monitor::SystemMonitor::new(*stats);
        monitor.display_memory_info(self);

        self.write_str("\n=== Detailed Counters ===\n");
        self.write_str("Allocations:       ");
        let alloc_count = stats.allocation_count;
        let s = u64_to_string(alloc_count);
        self.write_str(s.as_str());
        self.write_str("\n");

        self.write_str("Deallocations:     ");
        let s = u64_to_string(stats.deallocation_count);
        self.write_str(s.as_str());
        self.write_str("\n");

        if alloc_count > 0 {
            self.write_str("Average size:      ");
            let avg = stats.allocated / alloc_count;
            let s = u64_to_string(avg);
            self.write_str(s.as_str());
            self.write_str(" bytes\n");
        }
    }

    /// Shows the system description and the memory layout.
    pub fn handle_sysinfo_command(&mut self, stats: &MemoryStats)
        requires
            old(self).wf(),
            crate::system_monitor::stats_wf(*stats),
        ensures
            final(self).wf(),
    {
        let monitor = crate::system_monitor::SystemMonitor::new(*stats);
        monitor.display_system_info(self);

        self.write_str("\n=== Memory Layout ===\n");
        self.write_str("Heap address range: 0x");
        let s = crate::text::u64_to_hex_string(crate::allocator::HEAP_START as u64);
        self.write_str(s.as_str());
        self.write_str(" - 0x");
        let top = (crate::allocator::HEAP_START as u64).saturating_add(stats.total_heap_size);
        let s = crate::text::u64_to_hex_string(top);
        self.write_str(s.as_str());
        self.write_str("\n");

        self.write_str("Allocator type:     linked-list allocator\n");
        self.write_str("Double buffering:   enabled\n");
        self.write_str("Terminal mode:      interactive\n");
    }

    /// Shows the health check and a short self-test.
    pub fn handle_syshealth_command(&mut self, stats: &MemoryStats)
        requires
            old(self).wf(),
            crate::system_monitor::stats_wf(*stats),
        ensures
            final(self).wf(),
    {
        let monitor = crate::system_monitor::SystemMonitor::new(*stats);
        monitor.display_health_check(self);

        self.write_str("\n=== Self Test ===\n");
        if stats.allocation_count > 0 {
            self.write_str("Memory allocator:  in use\n");
        } else {
            self.write_str("Memory allocator:  idle\n");
        }
        self.write_str("Display buffer:    ok\n");
        self.write_str("Terminal system:   ok\n");
        self.write_str("Filesystem:        available\n");
        self.write_str("\nSystem state:      all checks passed\n");
    }

    /// Splits the command line into at most sixteen parts and dispatches
    /// on the first one.  An empty line changes nothing at all.
    #[verifier::loop_isolation(false)]
    pub fn process_command(&mut self, command: &str, stats: &MemoryStats)
        requires
            old(self).wf(),
            crate::system_monitor::stats_wf(*stats),
        ensures
            final(self).wf(),
            crate::text::spec_tokens(command@).len() == 0 ==> final(self).grid() == old(
                self,
            ).grid() && final(self).col() == old(self).col() && final(self).line_view() == old(
                self,
            ).line_view() && final(self).pending_view() == old(self).pending_view(),
            ({
                let toks = crate::text::spec_tokens(command@);
                toks.len() > 0 && toks[0] == "clear"@ ==> final(self).col() == 0 && forall|row: int|
                    0 <= row < final(self).grid().len() ==> #[trigger] final(self).grid()[row]
                        =~= blank_row()
            }),
            ({
                let toks = crate::text::spec_tokens(command@);
                toks.len() > 0 && !known_command(toks[0]) ==> ({
                    let s1 = spec_write_bytes(
                        old(self).grid(),
                        old(self).col(),
                        old(self).color(),
                        str_bytes("Unknown command: "@),
                    );
                    let s2 = spec_write_bytes(s1.0, s1.1, old(self).color(), str_bytes(command@));
                    (final(self).grid(), final(self).col()) == spec_write_byte(
                        s2.0,
                        s2.1,
                        old(self).color(),
                        10,
                    )
                })
            }),
            ({
                let toks = crate::text::spec_tokens(command@);
                let capped = if toks.len() > 16 {
                    toks.take(16)
                } else {
                    toks
                };
                toks.len() > 0 && toks[0] == "echo"@ ==> ({
                    let s1 = spec_write_bytes(
                        old(self).grid(),
                        old(self).col(),
                        old(self).color(),
                        spec_echo_bytes(capped, 1),
                    );
                    (final(self).grid(), final(self).col()) == spec_write_byte(
                        s1.0,
                        s1.1,
                        old(self).color(),
                        10,
                    )
                })
            }),
    {
        let tokens = split_tokens(command);
        proof {
            assert(tokens.deep_view().len() == tokens@.len());
        }
        if tokens.len() == 0 {
            return ;
        }
        let mut parts = parts_new();
        let mut i: usize = 0;
        let mut full = false;
        while i < tokens.len() && !full
            invariant
                0 <= i <= tokens@.len(),
                tokens@.len() >= 1,
                parts_contents(&parts).len() == i,
                parts_contents(&parts).len() <= 16,
                parts_contents(&parts) =~= tokens.deep_view().take(i as int),
                full ==> i >= 16,
            decreases tokens@.len() - i + (if full {
                0int
            } else {
                1int
            }),
        {
            let t = tokens[i].clone();
            match parts_push(&mut parts, t) {
                Ok(_) => {
                    i = i + 1;
                },
                Err(_) => {
                    full = true;
                },
            }
        }
        proof {
            assert(parts_contents(&parts).len() > 0);
            assert(parts_contents(&parts)[0] == tokens.deep_view()[0]);
            assert(parts_contents(&parts) =~= (if tokens.deep_view().len() > 16 {
                tokens.deep_view().take(16)
            } else {
                tokens.deep_view()
            }));
            reveal_strlit("help");
            reveal_strlit("clear");
            reveal_strlit("echo");
            assert("help"@.len() == 4);
            assert("clear"@.len() == 5);
            assert("echo"@.len() == 4);
            assert("help"@[0] == 'h');
            assert("echo"@[0] == 'e');
        }
        let cmd = parts_get(&parts, 0).clone();

        if str_eq(cmd.as_str(), "help") {
            self.write_str(
                "Available commands: help, clear, echo, ls, mk, rm, cd, mv, cp, meminfo, memstats, sysinfo, syshealth\n",
            );
        } else if str_eq(cmd.as_str(), "clear") {
            self.clear();
        } else if str_eq(cmd.as_str(), "echo") {
            let ghost cp = parts_contents(&parts);
            let ghost eg = self.grid();
            let ghost ec = self.col();
            let n = parts_len(&parts);
            let mut j: usize = 1;
            while j < n
                invariant
                    self.wf(),
                    n == cp.len(),
                    cp == parts_contents(&parts),
                    1 <= j,
                    self.color() == old(self).color(),
                    spec_write_bytes(
                        self.grid(),
                        self.col(),
                        old(self).color(),
                        spec_echo_bytes(cp, j as int),
                    ) == spec_write_bytes(eg, ec, old(self).color(), spec_echo_bytes(cp, 1)),
                decreases n - j,
            {
                let ghost gj = self.grid();
                let ghost cj = self.col();
                let ghost color = old(self).color();
                let ghost sep: Seq<u8> = if j > 1 {
                    seq![32u8]
                } else {
                    Seq::<u8>::empty()
                };
                if j > 1 {
                    self.write_byte(32);
                }
                let arg = parts_get(&parts, j);
                let arg_copy = arg.clone();
                self.write_str(arg_copy.as_str());
                proof {
                    assert((sep + str_bytes(cp[j as int])) + spec_echo_bytes(cp, j as int + 1)
                        == spec_echo_bytes(cp, j as int));
                    lemma_write_bytes_append(
                        gj,
                        cj,
                        color,
                        sep + str_bytes(cp[j as int]),
                        spec_echo_bytes(cp, j as int + 1),
                    );
                    lemma_write_bytes_append(gj, cj, color, sep, str_bytes(cp[j as int]));
                    if j > 1 {
                        let step = spec_write_byte(gj, cj, color, 32);
                        assert(sep[0] == 32);
                        assert(sep.drop_first() =~= Seq::<u8>::empty());
                        assert(spec_write_bytes(step.0, step.1, color, Seq::<u8>::empty()) == (
                            step.0,
                            step.1,
                        ));
                        assert(spec_write_bytes(gj, cj, color, sep).0 == step.0);
                        assert(spec_write_bytes(gj, cj, color, sep).1 == step.1);
                    }
                }
                j = j + 1;
            }
            self.write_byte(10);
            proof {
                assert(spec_echo_bytes(cp, n as int) =~= Seq::<u8>::empty());
            }
        } else if str_eq(cmd.as_str(), "ls") {
            self.handle_ls_command(&parts);
        } else if str_eq(cmd.as_str(), "mk") {
            self.handle_mk_command(&parts);
        } else if str_eq(cmd.as_str(), "rm") {
            self.handle_rm_command(&parts);
        } else if str_eq(cmd.as_str(), "cd") {
            self.handle_cd_command(&parts);
        } else if str_eq(cmd.as_str(), "mv") {
            self.handle_mv_command(&parts);
        } else if str_eq(cmd.as_str(), "cp") {
            self.handle_cp_command(&parts);
        } else if str_eq(cmd.as_str(), "meminfo") {
            self.handle_meminfo_command(stats);
        } else if str_eq(cmd.as_str(), "memstats") {
            self.handle_memstats_command(stats);
        } else if str_eq(cmd.as_str(), "sysinfo") {
            self.handle_sysinfo_command(stats);
        } else if str_eq(cmd.as_str(), "syshealth") {
            self.handle_syshealth_command(stats);
        } else {
            self.write_str("Unknown command: ");
            self.write_str(command);
            self.write_byte(10);
        }
    }
}

} // verus!
