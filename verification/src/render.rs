//! The grid as colored text for a terminal: one line per row, two
//! characters per cell, and a final marker that resets the color.

use vstd::prelude::*;
use crate::grid::{Grid, GridView, ALIVE};

verus! {

/// `String::push_str` appends the given string slice to the end of the
/// string.
pub assume_specification[ String::push_str ](s: &mut String, string: &str)
    ensures
        final(s)@ == old(s)@ + string@,
;

/// `String::push` appends the given character to the end of the string.
pub assume_specification[ String::push ](s: &mut String, ch: char)
    ensures
        final(s)@ == old(s)@.push(ch),
;

/// A live cell: blue foreground, then `#` and a space.
pub open spec fn alive_glyph() -> Seq<char> {
    seq!['\u{1b}', '[', '3', '4', 'm', '#', ' ']
}

/// A dead cell: red foreground, then `.` and a space.
pub open spec fn dead_glyph() -> Seq<char> {
    seq!['\u{1b}', '[', '3', '1', 'm', '.', ' ']
}

/// The marker that resets the terminal's color.
pub open spec fn reset_marker() -> Seq<char> {
    seq!['\u{1b}', '[', '0', 'm']
}

/// The glyph of a cell in the given state.
pub open spec fn glyph(cell: u8) -> Seq<char> {
    if cell == ALIVE {
        alive_glyph()
    } else {
        dead_glyph()
    }
}

impl GridView {
    /// The glyphs of the first `n` cells of row `y`.
    pub open spec fn row_text(self, y: int, n: nat) -> Seq<char>
        decreases n,
    {
        if n == 0 {
            Seq::empty()
        } else {
            self.row_text(y, (n - 1) as nat) + glyph(self.at(n - 1, y))
        }
    }

    /// The first `n` rows, each followed by a line feed.
    pub open spec fn rows_text(self, n: nat) -> Seq<char>
        decreases n,
    {
        if n == 0 {
            Seq::empty()
        } else {
            self.rows_text((n - 1) as nat) + self.row_text(n - 1, self.width as nat).push('\n')
        }
    }

    /// The whole grid as text: every row, then the reset marker.
    pub open spec fn rendered(self) -> Seq<char> {
        self.rows_text(self.height as nat) + reset_marker()
    }
}

impl Grid {
    /// The grid as text for a terminal. The grid is only read; writing
    /// the text out is left to the caller.
    pub fn render(&self) -> (out: String)
        requires
            self.wf(),
        ensures
            out@ == self@.rendered(),
    {
        let h: i32 = self.height();
        let w: i32 = self.width();
        let mut out: String = String::new();
        let mut y: i32 = 0;
        while y < h
            invariant
                self.wf(),
                h == self@.height,
                w == self@.width,
                0 <= y <= h,
                out@ == self@.rows_text(y as nat),
            decreases h - y,
        {
            let ghost above = out@;
            let mut x: i32 = 0;
            while x < w
                invariant
                    self.wf(),
                    w == self@.width,
                    0 <= x <= w,
                    out@ == above + self@.row_text(y as int, x as nat),
                decreases w - x,
            {
                let ghost before = out@;
                if self.at(x, y) == ALIVE {
                    proof {
                        reveal_strlit("\u{001b}[34m# ");
                    }
                    out.push_str("\u{001b}[34m# ");
                    assert(out@ =~= before + alive_glyph());
                } else {
                    proof {
                        reveal_strlit("\u{001b}[31m. ");
                    }
                    out.push_str("\u{001b}[31m. ");
                    assert(out@ =~= before + dead_glyph());
                }
                assert(out@ =~= above + self@.row_text(y as int, (x + 1) as nat));
                x += 1;
            }
            out.push('\n');
            assert(out@ =~= self@.rows_text((y + 1) as nat));
            y += 1;
        }
        proof {
            reveal_strlit("\u{001B}[0m");
        }
        let ghost rows = out@;
        out.push_str("\u{001B}[0m");
        assert(out@ =~= rows + reset_marker());
        out
    }
}

} // verus!
