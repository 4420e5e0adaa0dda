use vstd::prelude::*;
use vstd::string::StrSliceExecFns;
use crate::error::MenuError;
use crate::font::{BdgFont, Rgba};

verus! {

/// The border glyph that a box stamped at `(bx, by)` with extent
/// `w` by `h` (both at least 2) puts into cell `(c, r)`, or `None` where the
/// box leaves the cell alone (its interior and everything outside it).
pub open spec fn box_border_char(bx: int, by: int, w: int, h: int, c: int, r: int) -> Option<
    char,
> {
    if (c == bx || c == bx + w - 1) && (r == by || r == by + h - 1) {
        Some('+')
    } else if (r == by || r == by + h - 1) && bx < c < bx + w - 1 {
        Some('-')
    } else if (c == bx || c == bx + w - 1) && by < r < by + h - 1 {
        Some('|')
    } else {
        None
    }
}

/// A fixed-size character-cell overlay: a grid of glyphs (rows by columns,
/// row-major) plus a write cursor and the data the renderer needs to place
/// it on screen.
///
/// The buffer dimensions are fixed at creation and never resized, and the
/// cursor stays inside `[0, char_width)` by `[0, char_height)`.
pub struct Panel {
    pub screen_x: u32,
    pub screen_y: u32,
    pub font_color: Rgba,
    pub erase_color: Option<Rgba>,
    pub font: BdgFont,
    pub char_width: u8,
    pub char_height: u8,
    pub chars: Vec<Vec<char>>,
    pub cursor_x: u32,
    pub cursor_y: u32,
}

impl Panel {
    /// The abstract contents: a sequence of rows, each a sequence of cells.
    pub open spec fn grid(self) -> Seq<Seq<char>> {
        self.chars@.map_values(|row: Vec<char>| row@)
    }

    /// Well-formedness: the buffer matches the declared dimensions and the
    /// cursor is inside them.
    pub open spec fn wf(self) -> bool {
        &&& 1 <= self.char_width
        &&& 1 <= self.char_height
        &&& self.chars@.len() == self.char_height as int
        &&& forall|r: int|
            0 <= r < self.chars@.len() ==> (#[trigger] self.chars@[r])@.len()
                == self.char_width as int
        &&& self.cursor_x < self.char_width as u32
        &&& self.cursor_y < self.char_height as u32
    }

    /// Everything but the buffer and the cursor is unchanged.
    pub open spec fn same_frame(self, other: Panel) -> bool {
        &&& self.screen_x == other.screen_x
        &&& self.screen_y == other.screen_y
        &&& self.font_color == other.font_color
        &&& self.erase_color == other.erase_color
        &&& self.font == other.font
        &&& self.char_width == other.char_width
        &&& self.char_height == other.char_height
    }

    /// The panel's width in pixels when drawn unscaled.
    pub fn pixel_width(&self) -> (w: u64)
        ensures
            w == self.char_width as u64 * self.font.width as u64,
    {
        proof {
            assert(self.char_width as int * self.font.width as int <= 255 * 0xffff_ffff)
                by (nonlinear_arith)
                requires
                    self.char_width as int <= 255,
                    self.font.width as int <= 0xffff_ffff,
            ;
        }
        self.char_width as u64 * self.font.width as u64
    }

    /// The panel's height in pixels when drawn unscaled.
    pub fn pixel_height(&self) -> (h: u64)
        ensures
            h == self.char_height as u64 * self.font.height as u64,
    {
        proof {
            assert(self.char_height as int * self.font.height as int <= 255 * 0xffff_ffff)
                by (nonlinear_arith)
                requires
                    self.char_height as int <= 255,
                    self.font.height as int <= 0xffff_ffff,
            ;
        }
        self.char_height as u64 * self.font.height as u64
    }
}

/// Creates a `w` by `h` panel filled with spaces, cursor at the origin.
pub fn make_panel(
    sx: u32,
    sy: u32,
    font_color: Rgba,
    erase_color: Option<Rgba>,
    font: BdgFont,
    w: u8,
    h: u8,
) -> (p: Panel)
    requires
        1 <= w,
        1 <= h,
    ensures
        p.wf(),
        p.screen_x == sx,
        p.screen_y == sy,
        p.font_color == font_color,
        p.erase_color == erase_color,
        p.font == font,
        p.char_width == w,
        p.char_height == h,
        p.cursor_x == 0,
        p.cursor_y == 0,
        forall|r: int, c: int| 0 <= r < h && 0 <= c < w ==> p.grid()[r][c] == ' ',
{
    let mut char_vec: Vec<Vec<char>> = Vec::new();
    let mut row_i: usize = 0;
    while row_i < h as usize
        invariant
            row_i <= h as usize,
            char_vec@.len() == row_i as int,
            forall|r: int|
                0 <= r < row_i as int ==> (#[trigger] char_vec@[r])@ == Seq::new(
                    w as nat,
                    |c: int| ' ',
                ),
        decreases h as usize - row_i,
    {
        let mut row: Vec<char> = Vec::new();
        let mut col_i: usize = 0;
        while col_i < w as usize
            invariant
                col_i <= w as usize,
                row@ == Seq::new(col_i as nat, |c: int| ' '),
            decreases w as usize - col_i,
        {
            row.push(' ');
            proof {
                assert(row@ =~= Seq::new((col_i + 1) as nat, |c: int| ' '));
            }
            col_i += 1;
        }
        char_vec.push(row);
        row_i += 1;
    }
    let p = Panel {
        screen_x: sx,
        screen_y: sy,
        font_color,
        erase_color,
        font,
        char_width: w,
        char_height: h,
        chars: char_vec,
        cursor_x: 0,
        cursor_y: 0,
    };
    p
}

/// Moves the write cursor to `(x, y)`. Positions outside the grid are
/// rejected with `OutOfBounds` and leave the panel untouched.
pub fn panel_set_cursor_pos(panel: &mut Panel, x: u32, y: u32) -> (r: Result<(), MenuError>)
    requires
        old(panel).wf(),
    ensures
        final(panel).wf(),
        x < old(panel).char_width as u32 && y < old(panel).char_height as u32 ==> {
            &&& r is Ok
            &&& *final(panel) == (Panel { cursor_x: x, cursor_y: y, ..*old(panel) })
        },
        !(x < old(panel).char_width as u32 && y < old(panel).char_height as u32) ==> {
            &&& r == Err::<(), MenuError>(MenuError::OutOfBounds)
            &&& *final(panel) == *old(panel)
        },
{
    if x < panel.char_width as u32 && y < panel.char_height as u32 {
        panel.cursor_x = x;
        panel.cursor_y = y;
        Ok(())
    } else {
        Err(MenuError::OutOfBounds)
    }
}

/// Writes one character at cell `(x, y)` without moving the cursor.
/// A position outside the grid is rejected with `OutOfBounds` and changes
/// nothing.
pub fn panel_put_char(panel: &mut Panel, c: char, x: u32, y: u32) -> (r: Result<(), MenuError>)
    requires
        old(panel).wf(),
    ensures
        final(panel).wf(),
        final(panel).same_frame(*old(panel)),
        final(panel).cursor_x == old(panel).cursor_x,
        final(panel).cursor_y == old(panel).cursor_y,
        x < old(panel).char_width as u32 && y < old(panel).char_height as u32 ==> {
            &&& r is Ok
            &&& final(panel).grid() == old(panel).grid().update(
                y as int,
                old(panel).grid()[y as int].update(x as int, c),
            )
        },
        !(x < old(panel).char_width as u32 && y < old(panel).char_height as u32) ==> {
            &&& r == Err::<(), MenuError>(MenuError::OutOfBounds)
            &&& *final(panel) == *old(panel)
        },
{
    if x < panel.char_width as u32 && y < panel.char_height as u32 {
        panel.chars[y as usize][x as usize] = c;
        proof {
            assert(panel.grid() =~= old(panel).grid().update(
                y as int,
                old(panel).grid()[y as int].update(x as int, c),
            ));
        }
        Ok(())
    } else {
        Err(MenuError::OutOfBounds)
    }
}

/// Writes the characters of `s` into consecutive cells of the cursor's row,
/// starting at the cursor and advancing one cell per character. The write
/// never leaves the row: characters past the last column are dropped and
/// reported as `OutOfBounds`, and the cursor stops on the last column.
pub fn panel_write_string(panel: &mut Panel, s: &str) -> (r: Result<(), MenuError>)
    requires
        old(panel).wf(),
    ensures
        final(panel).wf(),
        final(panel).same_frame(*old(panel)),
        final(panel).cursor_y == old(panel).cursor_y,
        ({
            let row = old(panel).cursor_y as int;
            let col = old(panel).cursor_x as int;
            let w = old(panel).char_width as int;
            let n = if s@.len() as int <= w - col {
                s@.len() as int
            } else {
                w - col
            };
            &&& (r is Ok <==> col + s@.len() as int <= w)
            &&& (r is Err ==> r == Err::<(), MenuError>(MenuError::OutOfBounds))
            &&& forall|i: int| 0 <= i < n ==> final(panel).grid()[row][col + i] == s@[i]
            &&& forall|rr: int, cc: int|
                0 <= rr < old(panel).char_height as int && 0 <= cc < w && !(rr == row && col <= cc
                    < col + n) ==> final(panel).grid()[rr][cc] == old(panel).grid()[rr][cc]
            &&& final(panel).cursor_x as int == (if col + n < w {
                col + n
            } else {
                w - 1
            })
        }),
{
    let w = panel.char_width as u32;
    let len = s.unicode_len();
    let avail = (w - panel.cursor_x) as usize;
    let n = if len <= avail {
        len
    } else {
        avail
    };
    let row = panel.cursor_y as usize;
    let col = panel.cursor_x as usize;
    let mut i: usize = 0;
    while i < n
        invariant
            panel.wf(),
            panel.same_frame(*old(panel)),
            panel.cursor_x == old(panel).cursor_x,
            panel.cursor_y == old(panel).cursor_y,
            i <= n,
            n <= s@.len(),
            row == old(panel).cursor_y as int,
            col == old(panel).cursor_x as int,
            w == old(panel).char_width as u32,
            col + n <= w as int,
            forall|k: int| 0 <= k < i ==> panel.grid()[row as int][col + k] == s@[k],
            forall|rr: int, cc: int|
                0 <= rr < panel.char_height as int && 0 <= cc < panel.char_width as int && !(rr
                    == row as int && col <= cc < col + i) ==> panel.grid()[rr][cc] == old(
                    panel,
                ).grid()[rr][cc],
        decreases n - i,
    {
        let ghost prev = *panel;
        let c = s.get_char(i);
        panel.chars[row][col + i] = c;
        proof {
            assert(panel.grid() =~= prev.grid().update(
                row as int,
                prev.grid()[row as int].update(col + i as int, c),
            ));
        }
        i += 1;
    }
    let newx = panel.cursor_x + n as u32;
    panel.cursor_x = if newx < w {
        newx
    } else {
        w - 1
    };
    if len <= avail {
        Ok(())
    } else {
        Err(MenuError::OutOfBounds)
    }
}

/// Stamps a rectangular border into the grid at cell offset `(x, y)`:
/// `+` at the corners, `-` along the top and bottom, `|` along the sides,
/// leaving the interior and everything outside the box untouched.
///
/// A box narrower or shorter than 2 cells is a no-op; one that would reach
/// past the grid is rejected whole with `OutOfBounds`.
pub fn write_box(panel: &mut Panel, x: u32, y: u32, width: u32, height: u32) -> (r: Result<
    (),
    MenuError,
>)
    requires
        old(panel).wf(),
    ensures
        final(panel).wf(),
        final(panel).same_frame(*old(panel)),
        final(panel).cursor_x == old(panel).cursor_x,
        final(panel).cursor_y == old(panel).cursor_y,
        width < 2 || height < 2 ==> r is Ok && *final(panel) == *old(panel),
        width >= 2 && height >= 2 && (x as int + width as int > old(panel).char_width as int
            || y as int + height as int > old(panel).char_height as int) ==> {
            &&& r == Err::<(), MenuError>(MenuError::OutOfBounds)
            &&& *final(panel) == *old(panel)
        },
        width >= 2 && height >= 2 && x as int + width as int <= old(panel).char_width as int && y
            as int + height as int <= old(panel).char_height as int ==> {
            &&& r is Ok
            &&& forall|rr: int, cc: int|
                0 <= rr < old(panel).char_height as int && 0 <= cc < old(panel).char_width as int
                    ==> #[trigger] final(panel).grid()[rr][cc] == (match box_border_char(
                    x as int,
                    y as int,
                    width as int,
                    height as int,
                    cc,
                    rr,
                ) {
                    Some(ch) => ch,
                    None => old(panel).grid()[rr][cc],
                })
        },
{
    if width < 2 || height < 2 {
        return Ok(());
    }
    let cw = panel.char_width as u32;
    let ch = panel.char_height as u32;
    if width > cw || x > cw - width || height > ch || y > ch - height {
        return Err(MenuError::OutOfBounds);
    }
    let mut cx: u32 = 1;
    while cx < width - 1
        invariant
            panel.wf(),
            panel.same_frame(*old(panel)),
            panel.cursor_x == old(panel).cursor_x,
            panel.cursor_y == old(panel).cursor_y,
            cw == old(panel).char_width as u32,
            ch == old(panel).char_height as u32,
            2 <= width,
            2 <= height,
            x + width <= cw,
            y + height <= ch,
            1 <= cx <= width - 1,
            forall|rr: int, cc: int|
                0 <= rr < ch as int && 0 <= cc < cw as int ==> #[trigger] panel.grid()[rr][cc] == (
                if (rr == y as int || rr == y as int + height as int - 1) && (x as int) < cc && cc
                    < x as int + cx as int {
                    '-'
                } else {
                    old(panel).grid()[rr][cc]
                }),
        decreases width - 1 - cx,
    {
        let ghost p0 = *panel;
        panel.chars[y as usize][(x + cx) as usize] = '-';
        proof {
            assert(panel.grid() =~= p0.grid().update(
                y as int,
                p0.grid()[y as int].update(x as int + cx as int, '-'),
            ));
        }
        let ghost p1 = *panel;
        panel.chars[(y + height - 1) as usize][(x + cx) as usize] = '-';
        proof {
            assert(panel.grid() =~= p1.grid().update(
                y as int + height as int - 1,
                p1.grid()[y as int + height as int - 1].update(x as int + cx as int, '-'),
            ));
        }
        cx += 1;
    }
    let mut cy: u32 = 1;
    while cy < height - 1
        invariant
            panel.wf(),
            panel.same_frame(*old(panel)),
            panel.cursor_x == old(panel).cursor_x,
            panel.cursor_y == old(panel).cursor_y,
            cw == old(panel).char_width as u32,
            ch == old(panel).char_height as u32,
            2 <= width,
            2 <= height,
            x + width <= cw,
            y + height <= ch,
            1 <= cy <= height - 1,
            forall|rr: int, cc: int|
                0 <= rr < ch as int && 0 <= cc < cw as int ==> #[trigger] panel.grid()[rr][cc] == (
                if (cc == x as int || cc == x as int + width as int - 1) && (y as int) < rr && rr
                    < y as int + cy as int {
                    '|'
                } else if (rr == y as int || rr == y as int + height as int - 1) && (x as int)
                    < cc && cc < x as int + width as int - 1 {
                    '-'
                } else {
                    old(panel).grid()[rr][cc]
                }),
        decreases height - 1 - cy,
    {
        let ghost p0 = *panel;
        panel.chars[(y + cy) as usize][x as usize] = '|';
        proof {
            assert(panel.grid() =~= p0.grid().update(
                y as int + cy as int,
                p0.grid()[y as int + cy as int].update(x as int, '|'),
            ));
        }
        let ghost p1 = *panel;
        panel.chars[(y + cy) as usize][(x + width - 1) as usize] = '|';
        proof {
            assert(panel.grid() =~= p1.grid().update(
                y as int + cy as int,
                p1.grid()[y as int + cy as int].update(x as int + width as int - 1, '|'),
            ));
        }
        cy += 1;
    }
    let ghost p0 = *panel;
    panel.chars[y as usize][x as usize] = '+';
    proof {
        assert(panel.grid() =~= p0.grid().update(
            y as int,
            p0.grid()[y as int].update(x as int, '+'),
        ));
    }
    let ghost p1 = *panel;
    panel.chars[y as usize][(x + width - 1) as usize] = '+';
    proof {
        assert(panel.grid() =~= p1.grid().update(
            y as int,
            p1.grid()[y as int].update(x as int + width as int - 1, '+'),
        ));
    }
    let ghost p2 = *panel;
    panel.chars[(y + height - 1) as usize][x as usize] = '+';
    proof {
        assert(panel.grid() =~= p2.grid().update(
            y as int + height as int - 1,
            p2.grid()[y as int + height as int - 1].update(x as int, '+'),
        ));
    }
    let ghost p3 = *panel;
    panel.chars[(y + height - 1) as usize][(x + width - 1) as usize] = '+';
    proof {
        assert(panel.grid() =~= p3.grid().update(
            y as int + height as int - 1,
            p3.grid()[y as int + height as int - 1].update(x as int + width as int - 1, '+'),
        ));
    }
    Ok(())
}

} // verus!
