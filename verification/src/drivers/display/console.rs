//! Text console state: cursor movement, wrapping and scrolling.
//!
//! The console decides where each character goes; the drawing itself (glyph
//! rendering, clearing a cell, scrolling the framebuffer) is returned as a
//! list of operations for the display code to carry out.

use vstd::prelude::*;
use vstd::string::StringSliceAdditionalSpecFns;
use crate::drivers::display::framebuffer::{Color, Framebuffer};

verus! {

/// Width of a character cell in pixels.
pub const CHAR_WIDTH: usize = 8;

/// Height of a character cell in pixels.
pub const CHAR_HEIGHT: usize = 16;

/// Tab stops every this many columns.
pub const TAB_WIDTH: usize = 8;

/// A drawing operation the console asks the display to perform.
#[derive(Debug, Clone, Copy, PartialEq, Eq, Structural)]
pub enum ConsoleOp {
    /// Draw glyph `ch` in the cell at (`col`, `row`).
    RenderChar { ch: u8, col: usize, row: usize },
    /// Clear the cell at (`col`, `row`) to the background color.
    ClearCell { col: usize, row: usize },
    /// Scroll the screen up by one text line.
    Scroll,
    /// Clear the whole screen to the background color.
    ClearScreen,
}

/// Text console over a framebuffer.
pub struct TextConsole {
    framebuffer: Framebuffer,
    cursor_x: usize,
    cursor_y: usize,
    fg_color: Color,
    bg_color: Color,
    cols: usize,
    rows: usize,
}

/// Cursor state after one character: (column, row, whether the screen
/// scrolled) for a console of `cols` x `rows` cells.
pub open spec fn cursor_after(ch: u8, x: int, y: int, cols: int, rows: int) -> (int, int, bool) {
    let (nx, ny) = if ch == 10 {
        (0int, y + 1)
    } else if ch == 13 {
        (0int, y)
    } else if ch == 9 {
        let t = (x + 8) - (x + 8) % 8;
        if t >= cols { (0int, y + 1) } else { (t, y) }
    } else if ch == 8 {
        if x > 0 { (x - 1, y) } else if y > 0 { (cols - 1, y - 1) } else { (x, y) }
    } else if 0x20 <= ch <= 0x7E {
        if x + 1 >= cols { (0int, y + 1) } else { (x + 1, y) }
    } else {
        (x, y)
    };
    if ny >= rows { (nx, rows - 1, true) } else { (nx, ny, false) }
}

/// The drawing operations for one character at cursor (`x`, `y`).
pub open spec fn ops_for(ch: u8, x: int, y: int, cols: int, rows: int) -> Seq<ConsoleOp> {
    let draw: Seq<ConsoleOp> = if ch == 8 {
        if x > 0 {
            seq![ConsoleOp::ClearCell { col: (x - 1) as usize, row: y as usize }]
        } else if y > 0 {
            seq![ConsoleOp::ClearCell { col: (cols - 1) as usize, row: (y - 1) as usize }]
        } else {
            Seq::empty()
        }
    } else if 0x20 <= ch <= 0x7E {
        seq![ConsoleOp::RenderChar { ch, col: x as usize, row: y as usize }]
    } else {
        Seq::empty()
    };
    if cursor_after(ch, x, y, cols, rows).2 {
        draw + seq![ConsoleOp::Scroll] + Seq::new(
            cols as nat,
            |c: int| ConsoleOp::ClearCell { col: c as usize, row: (rows - 1) as usize },
        )
    } else {
        draw
    }
}

/// Cursor and drawing operations after putting each byte of `bytes` in
/// turn, from cursor (`x`, `y`).
pub open spec fn text_run(bytes: Seq<u8>, x: int, y: int, cols: int, rows: int) -> (int, int, Seq<ConsoleOp>)
    decreases bytes.len(),
{
    if bytes.len() == 0 {
        (x, y, Seq::empty())
    } else {
        let p = text_run(bytes.drop_last(), x, y, cols, rows);
        let c = cursor_after(bytes.last(), p.0, p.1, cols, rows);
        (c.0, c.1, p.2 + ops_for(bytes.last(), p.0, p.1, cols, rows))
    }
}

impl TextConsole {
    /// Cursor column.
    pub closed spec fn col(&self) -> int {
        self.cursor_x as int
    }

    /// Cursor row.
    pub closed spec fn row(&self) -> int {
        self.cursor_y as int
    }

    /// Number of columns.
    pub closed spec fn ncols(&self) -> int {
        self.cols as int
    }

    /// Number of rows.
    pub closed spec fn nrows(&self) -> int {
        self.rows as int
    }

    /// Foreground color.
    pub closed spec fn fg(&self) -> Color {
        self.fg_color
    }

    /// Background color.
    pub closed spec fn bg(&self) -> Color {
        self.bg_color
    }

    /// The framebuffer drawn on.
    pub closed spec fn fb(&self) -> Framebuffer {
        self.framebuffer
    }

    /// The cursor stays on the screen.
    pub closed spec fn wf(&self) -> bool {
        &&& 0 < self.cols && 0 < self.rows
        &&& self.cursor_x < self.cols
        &&& self.cursor_y < self.rows
        &&& self.cols <= usize::MAX - 8
    }

    /// A console over `framebuffer`: as many cells as fit, the theme's
    /// default colors (#F8F8F2 on #282A36),
    /// cursor at the top left.
    pub fn new(framebuffer: Framebuffer) -> (c: TextConsole)
        ensures
            c.ncols() == framebuffer.width / CHAR_WIDTH,
            c.nrows() == framebuffer.height / CHAR_HEIGHT,
            c.col() == 0 && c.row() == 0,
            c.fb() == framebuffer,
            c.fg() == (Color { r: 248, g: 248, b: 242 }),
            c.bg() == (Color { r: 40, g: 42, b: 54 }),
            c.ncols() > 0 && c.nrows() > 0 ==> c.wf(),
    {
        let cols = framebuffer.width / CHAR_WIDTH;
        let rows = framebuffer.height / CHAR_HEIGHT;
        TextConsole {
            framebuffer,
            cursor_x: 0,
            cursor_y: 0,
            fg_color: Color::fg_default(),
            bg_color: Color::bg_default(),
            cols,
            rows,
        }
    }

    /// The foreground color.
    pub fn fg_color(&self) -> (r: Color)
        ensures
            r == self.fg(),
    {
        self.fg_color
    }

    /// The background color.
    pub fn bg_color(&self) -> (r: Color)
        ensures
            r == self.bg(),
    {
        self.bg_color
    }

    /// Set both colors.
    pub fn set_color(&mut self, fg: Color, bg: Color)
        ensures
            final(self).fg() == fg && final(self).bg() == bg,
            final(self).fb() == old(self).fb(),
            final(self).col() == old(self).col() && final(self).row() == old(self).row(),
            final(self).ncols() == old(self).ncols() && final(self).nrows() == old(self).nrows(),
            old(self).wf() ==> final(self).wf(),
    {
        self.fg_color = fg;
        self.bg_color = bg;
    }

    /// The cursor position (column, row).
    pub fn cursor(&self) -> (r: (usize, usize))
        ensures
            r.0 == self.col() && r.1 == self.row(),
    {
        (self.cursor_x, self.cursor_y)
    }

    /// Move the cursor; positions off the screen are ignored.
    pub fn set_cursor(&mut self, x: usize, y: usize)
        ensures
            (x < old(self).ncols() && y < old(self).nrows()) ==> final(self).col() == x
                && final(self).row() == y,
            !(x < old(self).ncols() && y < old(self).nrows()) ==> final(self).col() == old(
                self,
            ).col() && final(self).row() == old(self).row(),
            final(self).ncols() == old(self).ncols() && final(self).nrows() == old(self).nrows(),
            final(self).fg() == old(self).fg() && final(self).bg() == old(self).bg(),
            final(self).fb() == old(self).fb(),
            old(self).wf() ==> final(self).wf(),
    {
        if x < self.cols && y < self.rows {
            self.cursor_x = x;
            self.cursor_y = y;
        }
    }

    /// Clear the screen and home the cursor.
    pub fn clear(&mut self) -> (ops: Vec<ConsoleOp>)
        ensures
            ops@ == seq![ConsoleOp::ClearScreen],
            final(self).col() == 0 && final(self).row() == 0,
            final(self).ncols() == old(self).ncols() && final(self).nrows() == old(self).nrows(),
            final(self).fg() == old(self).fg() && final(self).bg() == old(self).bg(),
            final(self).fb() == old(self).fb(),
            old(self).wf() ==> final(self).wf(),
    {
        self.cursor_x = 0;
        self.cursor_y = 0;
        let mut ops: Vec<ConsoleOp> = Vec::new();
        ops.push(ConsoleOp::ClearScreen);
        ops
    }

    /// Put one character at the cursor: printable ASCII is drawn and
    /// advances the cursor (wrapping at the line end); newline, carriage
    /// return, tab and backspace move the cursor; other bytes are ignored.
    /// When the cursor leaves the last line the screen scrolls by a line.
    pub fn put_char(&mut self, ch: u8) -> (ops: Vec<ConsoleOp>)
        requires
            old(self).wf(),
        ensures
            final(self).wf(),
            final(self).fb() == old(self).fb(),
            ({
                let (nx, ny, _) = cursor_after(
                    ch,
                    old(self).col(),
                    old(self).row(),
                    old(self).ncols(),
                    old(self).nrows(),
                );
                final(self).col() == nx && final(self).row() == ny
            }),
            ops@ == ops_for(ch, old(self).col(), old(self).row(), old(self).ncols(), old(self).nrows()),
            final(self).ncols() == old(self).ncols() && final(self).nrows() == old(self).nrows(),
            final(self).fg() == old(self).fg() && final(self).bg() == old(self).bg(),
            final(self).fb() == old(self).fb(),
            ch == 9 && final(self).col() != 0 ==> {
                &&& final(self).row() == old(self).row()
                &&& is_tab_stop(final(self).col())
                &&& old(self).col() < final(self).col() <= old(self).col() + 8
            },
    {
        let mut ops: Vec<ConsoleOp> = Vec::new();
        let x = self.cursor_x;
        let y = self.cursor_y;
        proof {
            lemma_tab_stays_on_stop(x as int, y as int, self.cols as int, self.rows as int);
        }
        if ch == 10 {
            self.cursor_y = self.cursor_y + 1;
            self.cursor_x = 0;
        } else if ch == 13 {
            self.cursor_x = 0;
        } else if ch == 9 {
            let t = (self.cursor_x + 8) - (self.cursor_x + 8) % 8;
            self.cursor_x = t;
            if self.cursor_x >= self.cols {
                self.cursor_x = 0;
                self.cursor_y = self.cursor_y + 1;
            }
        } else if ch == 8 {
            if self.cursor_x > 0 {
                self.cursor_x = self.cursor_x - 1;
                ops.push(ConsoleOp::ClearCell { col: self.cursor_x, row: self.cursor_y });
            } else if self.cursor_y > 0 {
                self.cursor_y = self.cursor_y - 1;
                self.cursor_x = self.cols - 1;
                ops.push(ConsoleOp::ClearCell { col: self.cursor_x, row: self.cursor_y });
            }
        } else if 0x20 <= ch && ch <= 0x7E {
            ops.push(ConsoleOp::RenderChar { ch, col: self.cursor_x, row: self.cursor_y });
            self.cursor_x = self.cursor_x + 1;
            if self.cursor_x >= self.cols {
                self.cursor_x = 0;
                self.cursor_y = self.cursor_y + 1;
            }
        }
        if self.cursor_y >= self.rows {
            ops.push(ConsoleOp::Scroll);
            let ghost before = ops@;
            let mut c: usize = 0;
            while c < self.cols
                invariant
                    c <= self.cols,
                    0 < self.rows,
                    ops@ == before + Seq::new(
                        c as nat,
                        |k: int| ConsoleOp::ClearCell { col: k as usize, row: (self.rows - 1) as usize },
                    ),
                decreases self.cols - c,
            {
                ops.push(ConsoleOp::ClearCell { col: c, row: self.rows - 1 });
                proof {
                    assert(ops@ =~= before + Seq::new(
                        (c + 1) as nat,
                        |k: int| ConsoleOp::ClearCell { col: k as usize, row: (self.rows - 1) as usize },
                    ));
                }
                c = c + 1;
            }
            self.cursor_y = self.rows - 1;
        }
        proof {
            let o = ops_for(ch, x as int, y as int, self.cols as int, self.rows as int);
            assert(ops@ =~= o);
        }
        ops
    }

    /// Put every byte of `s` in turn.
    pub fn write_str(&mut self, s: &str) -> (ops: Vec<ConsoleOp>)
        requires
            old(self).wf(),
        ensures
            final(self).wf(),
            final(self).ncols() == old(self).ncols() && final(self).nrows() == old(self).nrows(),
            final(self).fg() == old(self).fg() && final(self).bg() == old(self).bg(),
            final(self).fb() == old(self).fb(),
            (final(self).col(), final(self).row(), ops@) == text_run(
                s.spec_bytes(),
                old(self).col(),
                old(self).row(),
                old(self).ncols(),
                old(self).nrows(),
            ),
    {
        let bytes = s.as_bytes();
        let mut ops: Vec<ConsoleOp> = Vec::new();
        let mut i: usize = 0;
        while i < bytes.len()
            invariant
                self.wf(),
                bytes@ == s.spec_bytes(),
                i <= bytes@.len(),
                self.ncols() == old(self).ncols() && self.nrows() == old(self).nrows(),
                self.fg() == old(self).fg() && self.bg() == old(self).bg(),
                self.fb() == old(self).fb(),
                (self.col(), self.row(), ops@) == text_run(
                    bytes@.take(i as int),
                    old(self).col(),
                    old(self).row(),
                    old(self).ncols(),
                    old(self).nrows(),
                ),
            decreases bytes@.len() - i,
        {
            proof {
                assert(bytes@.take(i + 1).drop_last() =~= bytes@.take(i as int));
            }
            let mut more = self.put_char(bytes[i]);
            ops.append(&mut more);
            i = i + 1;
        }
        proof {
            assert(bytes@.take(i as int) =~= bytes@);
        }
        ops
    }

    /// Number of columns.
    pub fn cols(&self) -> (r: usize)
        ensures
            r == self.ncols(),
    {
        self.cols
    }

    /// Number of rows.
    pub fn rows(&self) -> (r: usize)
        ensures
            r == self.nrows(),
    {
        self.rows
    }

    /// The framebuffer.
    pub fn framebuffer(&self) -> (r: &Framebuffer)
        ensures
            *r == self.fb(),
    {
        &self.framebuffer
    }

    /// The framebuffer, for drawing: the console's own, which changes
    /// through the reference; the cursor, colors and size stay.
    pub fn framebuffer_mut(&mut self) -> (r: &mut Framebuffer)
        ensures
            *r == old(self).fb(),
            final(self).fb() == *final(r),
            final(self).col() == old(self).col() && final(self).row() == old(self).row(),
            final(self).ncols() == old(self).ncols() && final(self).nrows() == old(self).nrows(),
            final(self).fg() == old(self).fg() && final(self).bg() == old(self).bg(),
    {
        &mut self.framebuffer
    }
}

/// The system console: absent until it is initialized over a framebuffer.
pub struct ConsoleSlot {
    console: Option<TextConsole>,
}

impl ConsoleSlot {
    /// The console, when initialized.
    pub closed spec fn console_of(&self) -> Option<TextConsole> {
        self.console
    }

    /// An initialized console is well formed.
    pub closed spec fn wf(&self) -> bool {
        self.console matches Some(c) ==> c.wf()
    }

    /// No console yet.
    pub fn new() -> (s: ConsoleSlot)
        ensures
            s.wf(),
            s.console_of() is None,
    {
        ConsoleSlot { console: None }
    }

    /// Install a console over `framebuffer`.
    pub fn init(&mut self, framebuffer: Framebuffer)
        requires
            framebuffer.width >= CHAR_WIDTH,
            framebuffer.height >= CHAR_HEIGHT,
        ensures
            final(self).wf(),
            final(self).console_of() is Some,
            final(self).console_of()->0.col() == 0 && final(self).console_of()->0.row() == 0,
    {
        self.console = Some(TextConsole::new(framebuffer));
    }

    /// Whether a console was installed.
    pub fn is_initialized(&self) -> (r: bool)
        ensures
            r == self.console_of() is Some,
    {
        self.console.is_some()
    }

    /// Put a character on the console, if any; the drawing it asks for.
    pub fn put_char(&mut self, ch: u8) -> (ops: Vec<ConsoleOp>)
        requires
            old(self).wf(),
        ensures
            final(self).wf(),
            old(self).console_of() is None ==> ops@.len() == 0 && final(self).console_of() is None,
            old(self).console_of() matches Some(c) ==> final(self).console_of() is Some && ({
                let (nx, ny, _) = cursor_after(ch, c.col(), c.row(), c.ncols(), c.nrows());
                &&& final(self).console_of()->0.col() == nx
                &&& final(self).console_of()->0.row() == ny
                &&& ops@ == ops_for(ch, c.col(), c.row(), c.ncols(), c.nrows())
            }),
    {
        match self.console.take() {
            Some(mut c) => {
                let ops = c.put_char(ch);
                self.console = Some(c);
                ops
            },
            None => Vec::new(),
        }
    }

    /// Write a string on the console, if any; the drawing it asks for.
    pub fn write_str(&mut self, s: &str) -> (ops: Vec<ConsoleOp>)
        requires
            old(self).wf(),
        ensures
            final(self).wf(),
            old(self).console_of() is None ==> ops@.len() == 0 && final(self).console_of() is None,
            old(self).console_of() matches Some(c) ==> final(self).console_of() is Some && ({
                let run = text_run(s.spec_bytes(), c.col(), c.row(), c.ncols(), c.nrows());
                &&& final(self).console_of()->0.col() == run.0
                &&& final(self).console_of()->0.row() == run.1
                &&& ops@ == run.2
            }),
    {
        match self.console.take() {
            Some(mut c) => {
                let ops = c.write_str(s);
                self.console = Some(c);
                ops
            },
            None => Vec::new(),
        }
    }

    /// Clear the console, if any.
    pub fn clear(&mut self) -> (ops: Vec<ConsoleOp>)
        requires
            old(self).wf(),
        ensures
            final(self).wf(),
            old(self).console_of() is None ==> ops@.len() == 0 && final(self).console_of() is None,
            old(self).console_of() is Some ==> ops@ == seq![ConsoleOp::ClearScreen]
                && final(self).console_of() is Some && final(self).console_of()->0.col() == 0
                && final(self).console_of()->0.row() == 0,
    {
        match self.console.take() {
            Some(mut c) => {
                let ops = c.clear();
                self.console = Some(c);
                ops
            },
            None => Vec::new(),
        }
    }

    /// Set the console colors, if any.
    pub fn set_color(&mut self, fg: Color, bg: Color)
        requires
            old(self).wf(),
        ensures
            final(self).wf(),
            old(self).console_of() is None ==> final(self).console_of() is None,
            old(self).console_of() is Some ==> final(self).console_of() is Some
                && final(self).console_of()->0.fg() == fg && final(self).console_of()->0.bg() == bg,
    {
        match self.console.take() {
            Some(mut c) => {
                c.set_color(fg, bg);
                self.console = Some(c);
            },
            None => {},
        }
    }

    /// The console colors (foreground, background); the theme's defaults
    /// when there is no console.
    pub fn get_color(&self) -> (r: (Color, Color))
        ensures
            self.console_of() is None ==> r == (Color { r: 248, g: 248, b: 242 }, Color {
                r: 40,
                g: 42,
                b: 54,
            }),
            self.console_of() matches Some(c) ==> r == (c.fg(), c.bg()),
    {
        match &self.console {
            Some(c) => (c.fg_color(), c.bg_color()),
            None => (Color::fg_default(), Color::bg_default()),
        }
    }
}

/// Law: the cursor never leaves the screen, whatever character is put.
pub proof fn lemma_cursor_stays_on_screen(ch: u8, x: int, y: int, cols: int, rows: int)
    requires
        0 <= x < cols,
        0 <= y < rows,
    ensures
        0 <= cursor_after(ch, x, y, cols, rows).0 < cols,
        0 <= cursor_after(ch, x, y, cols, rows).1 < rows,
{
}

/// Law: a tab moves the cursor to the next tab stop, the least multiple of
/// 8 past the column; when that stop lies on the line it stays on the row,
/// else the cursor goes to the start of the next row.
pub proof fn lemma_tab_next_stop(x: int, y: int, cols: int, rows: int, k: int)
    requires
        0 <= x < cols,
        0 <= y < rows,
        k % 8 == 0,
        x < k <= x + 8,
    ensures
        ({
            let c = cursor_after(9, x, y, cols, rows);
            &&& k < cols ==> c == (k, y, false)
            &&& k >= cols ==> c.0 == 0 && (if y + 1 < rows { c.1 == y + 1 && !c.2 } else { c.1 == rows - 1 && c.2 })
        }),
{
    let t = (x + 8) - (x + 8) % 8;
    assert(t == k) by {
        assert(0 <= (x + 8) % 8 < 8);
        assert(t % 8 == 0);
    }
}

/// A column at which a tab may stop: every eighth column.
pub open spec fn is_tab_stop(col: int) -> bool {
    col % 8 == 0
}

/// Law: a tab that keeps the cursor on its row lands on a multiple of 8
/// past the column, and no multiple of 8 lies between.
pub proof fn lemma_tab_stays_on_stop(x: int, y: int, cols: int, rows: int)
    requires
        0 <= x < cols,
        0 <= y < rows,
    ensures
        ({
            let c = cursor_after(9, x, y, cols, rows);
            c.1 == y && !c.2 ==> {
                &&& c.0 % 8 == 0
                &&& x < c.0 <= x + 8
                &&& forall|j: int| x < j < c.0 ==> !#[trigger] is_tab_stop(j)
            }
        }),
{
    let t = (x + 8) - (x + 8) % 8;
    assert(t % 8 == 0 && x < t <= x + 8);
    assert forall|j: int| x < j < t implies !#[trigger] is_tab_stop(j) by {
        if j % 8 == 0 {
            assert(t - j >= 8 || t == j);
        }
    }
}

} // verus!
