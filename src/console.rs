//! A grid console of character cells and the drawing operations built on it.
use vstd::prelude::*;
use vstd::string::StrSliceExecFns;
use crate::color::Color;
use crate::point::Point;
pub use crate::cell::Cell;

verus! {

/// The box-drawing glyphs `(top-left, top-right, bottom-left, bottom-right,
/// horizontal, vertical)`, double-lined or single-lined.
pub fn box_glyphs(double: bool) -> (g: (char, char, char, char, char, char))
    ensures
        double ==> g == ('╔', '╗', '╚', '╝', '═', '║'),
        !double ==> g == ('┌', '┐', '└', '┘', '─', '│'),
{
    if double {
        ('╔', '╗', '╚', '╝', '═', '║')
    } else {
        ('┌', '┐', '└', '┘', '─', '│')
    }
}

/// Whether `pos` lies within a `width` by `height` grid anchored at the origin.
pub fn within(pos: Point, width: u32, height: u32) -> (r: bool)
    ensures
        r == (pos.x >= 0 && pos.y >= 0 && pos.x < width && pos.y < height),
{
    pos.x >= 0 && pos.y >= 0 && (pos.x as i64) < (width as i64) && (pos.y as i64) < (height as i64)
}

/// The cells of row `yy` from `a` to `b` (either order), both included, each with
/// glyph `ch`, left to right.
pub open spec fn row_spec(yy: i32, a: int, b: int, ch: char) -> Seq<(Point, char)> {
    let lo = if a <= b { a } else { b };
    let hi = if a <= b { b } else { a };
    Seq::new((hi - lo + 1) as nat, |i: int| (Point { x: (lo + i) as i32, y: yy }, ch))
}

/// The cells of column `xx` from `a` to `b` (either order), both included, each with
/// glyph `ch`, top to bottom.
pub open spec fn col_spec(xx: i32, a: int, b: int, ch: char) -> Seq<(Point, char)> {
    let lo = if a <= b { a } else { b };
    let hi = if a <= b { b } else { a };
    Seq::new((hi - lo + 1) as nat, |i: int| (Point { x: xx, y: (lo + i) as i32 }, ch))
}

/// What a box outline draws, in order: the four corners, the top and bottom edges and
/// the left and right edges; nothing when a side is under 2 cells or the box leaves
/// `i32`.
pub open spec fn box_spec(x: i32, y: i32, width: u32, height: u32, double: bool) -> Seq<(Point, char)> {
    let right = x + width - 1;
    let bottom = y + height - 1;
    if width < 2 || height < 2 || right > i32::MAX || bottom > i32::MAX {
        Seq::empty()
    } else {
        let g: (char, char, char, char, char, char) = if double {
            ('╔', '╗', '╚', '╝', '═', '║')
        } else {
            ('┌', '┐', '└', '┘', '─', '│')
        };
        seq![
            (Point { x, y }, g.0),
            (Point { x: right as i32, y }, g.1),
            (Point { x, y: bottom as i32 }, g.2),
            (Point { x: right as i32, y: bottom as i32 }, g.3),
        ] + row_spec(y, x + 1, right - 1, g.4) + row_spec(bottom as i32, x + 1, right - 1, g.4)
            + col_spec(x, y + 1, bottom - 1, g.5) + col_spec(right as i32, y + 1, bottom - 1, g.5)
    }
}

fn push_row(out: &mut Vec<(Point, char)>, yy: i32, a: i32, b: i32, ch: char)
    ensures
        final(out)@ == old(out)@ + row_spec(yy, a as int, b as int, ch),
{
    let ghost start = out@;
    let lo: i64 = if a <= b { a as i64 } else { b as i64 };
    let hi: i64 = if a <= b { b as i64 } else { a as i64 };
    let ghost seg = row_spec(yy, a as int, b as int, ch);
    let mut v: i64 = lo;
    while v <= hi
        invariant
            lo <= v <= hi + 1,
            i32::MIN <= lo,
            hi <= i32::MAX,
            seg == row_spec(yy, a as int, b as int, ch),
            seg.len() == hi - lo + 1,
            lo == (if a <= b { a as int } else { b as int }),
            out@ == start + seg.subrange(0, v - lo),
        decreases hi + 1 - v,
    {
        out.push((Point { x: v as i32, y: yy }, ch));
        v = v + 1;
        assert(out@ =~= start + seg.subrange(0, v - lo));
    }
    assert(seg.subrange(0, hi + 1 - lo) == seg);
}

fn push_col(out: &mut Vec<(Point, char)>, xx: i32, a: i32, b: i32, ch: char)
    ensures
        final(out)@ == old(out)@ + col_spec(xx, a as int, b as int, ch),
{
    let ghost start = out@;
    let lo: i64 = if a <= b { a as i64 } else { b as i64 };
    let hi: i64 = if a <= b { b as i64 } else { a as i64 };
    let ghost seg = col_spec(xx, a as int, b as int, ch);
    let mut v: i64 = lo;
    while v <= hi
        invariant
            lo <= v <= hi + 1,
            i32::MIN <= lo,
            hi <= i32::MAX,
            seg == col_spec(xx, a as int, b as int, ch),
            seg.len() == hi - lo + 1,
            lo == (if a <= b { a as int } else { b as int }),
            out@ == start + seg.subrange(0, v - lo),
        decreases hi + 1 - v,
    {
        out.push((Point { x: xx, y: v as i32 }, ch));
        v = v + 1;
        assert(out@ =~= start + seg.subrange(0, v - lo));
    }
    assert(seg.subrange(0, hi + 1 - lo) == seg);
}

/// The cells of a box outline with their glyphs, in drawing order.
pub fn box_outline(x: i32, y: i32, width: u32, height: u32, double: bool) -> (cells: Vec<(Point, char)>)
    ensures
        cells@ == box_spec(x, y, width, height, double),
{
    let mut out: Vec<(Point, char)> = Vec::new();
    if width < 2 || height < 2 {
        return out;
    }
    let right: i64 = x as i64 + width as i64 - 1;
    let bottom: i64 = y as i64 + height as i64 - 1;
    if right > i32::MAX as i64 || bottom > i32::MAX as i64 {
        return out;
    }
    let right = right as i32;
    let bottom = bottom as i32;
    let (tl, tr, bl, br, h, v) = box_glyphs(double);
    out.push((Point { x, y }, tl));
    out.push((Point { x: right, y }, tr));
    out.push((Point { x, y: bottom }, bl));
    out.push((Point { x: right, y: bottom }, br));
    push_row(&mut out, y, x + 1, right - 1, h);
    push_row(&mut out, bottom, x + 1, right - 1, h);
    push_col(&mut out, x, y + 1, bottom - 1, v);
    push_col(&mut out, right, y + 1, bottom - 1, v);
    assert(out@ =~= box_spec(x, y, width, height, double));
    out
}

/// The cells of row `y` from `x_start` to `x_end` (either order), each with glyph
/// `ch`, left to right.
pub fn hline_cells(y: i32, x_start: i32, x_end: i32, ch: char) -> (cells: Vec<(Point, char)>)
    ensures
        cells@ == row_spec(y, x_start as int, x_end as int, ch),
{
    let mut out: Vec<(Point, char)> = Vec::new();
    push_row(&mut out, y, x_start, x_end, ch);
    assert(out@ =~= row_spec(y, x_start as int, x_end as int, ch));
    out
}

/// The cells of column `x` from `y_start` to `y_end` (either order), each with glyph
/// `ch`, top to bottom.
pub fn vline_cells(x: i32, y_start: i32, y_end: i32, ch: char) -> (cells: Vec<(Point, char)>)
    ensures
        cells@ == col_spec(x, y_start as int, y_end as int, ch),
{
    let mut out: Vec<(Point, char)> = Vec::new();
    push_col(&mut out, x, y_start, y_end, ch);
    assert(out@ =~= col_spec(x, y_start as int, y_end as int, ch));
    out
}

/// The smaller of two integers.
pub open spec fn least(a: int, b: int) -> int {
    if a <= b {
        a
    } else {
        b
    }
}

/// How many characters of a string written from `pos` fit: those before the right
/// edge `width` and before `x` leaves `i32`.
pub open spec fn string_stop(pos: Point, len: int, width: int) -> int {
    let room = least(width, 0x8000_0000) - pos.x;
    if room <= 0 {
        0
    } else {
        least(room, len)
    }
}

/// The cells a string written rightward from `pos` covers, each with its character,
/// up to the right edge `width`.
pub open spec fn string_spec(pos: Point, text: Seq<char>, width: int) -> Seq<(Point, char)> {
    Seq::new(
        string_stop(pos, text.len() as int, width) as nat,
        |i: int| (Point { x: (pos.x + i) as i32, y: pos.y }, text[i]),
    )
}

/// The cells of `text` written rightward from `pos` up to the right edge `width`.
pub fn string_cells(pos: Point, text: &str, width: u32) -> (cells: Vec<(Point, char)>)
    ensures
        cells@ == string_spec(pos, text@, width as int),
{
    let n = text.unicode_len();
    let ghost stop = string_stop(pos, n as int, width as int);
    let ghost want = string_spec(pos, text@, width as int);
    let mut out: Vec<(Point, char)> = Vec::new();
    let mut i: usize = 0;
    while i < n
        invariant
            n == text@.len(),
            stop == string_stop(pos, n as int, width as int),
            want == string_spec(pos, text@, width as int),
            i <= stop,
            out@ == want.subrange(0, i as int),
        ensures
            i == stop,
            out@ == want.subrange(0, i as int),
        decreases n - i,
    {
        let x: i64 = pos.x as i64 + i as i64;
        if x >= width as i64 || x > i32::MAX as i64 {
            break;
        }
        out.push((Point { x: x as i32, y: pos.y }, text.get_char(i)));
        i = i + 1;
        assert(out@ =~= want.subrange(0, i as int));
    }
    assert(want.subrange(0, stop) =~= want);
    out
}

/// The cells of the `width` by `height` block at `(x, y)` that lie within `i32`, row
/// by row.
pub open spec fn block_spec(x: i32, y: i32, width: u32, height: u32) -> Seq<Point> {
    let cw = least(width as int, i32::MAX - x + 1);
    let chh = least(height as int, i32::MAX - y + 1);
    Seq::new((cw * chh) as nat, |i: int| Point { x: (x + i % cw) as i32, y: (y + i / cw) as i32 })
}

/// The cells of the `width` by `height` block at `(x, y)` that lie within `i32`, row
/// by row.
pub fn block_cells(x: i32, y: i32, width: u32, height: u32) -> (cells: Vec<Point>)
    ensures
        cells@ == block_spec(x, y, width, height),
{
    let cw: i64 = if (width as i64) < i32::MAX as i64 - x as i64 + 1 { width as i64 } else { i32::MAX as i64 - x as i64 + 1 };
    let chh: i64 = if (height as i64) < i32::MAX as i64 - y as i64 + 1 { height as i64 } else { i32::MAX as i64 - y as i64 + 1 };
    let ghost want = block_spec(x, y, width, height);
    let mut out: Vec<Point> = Vec::new();
    let mut dy: i64 = 0;
    while dy < chh
        invariant
            1 <= cw || chh <= 0 || cw == 0,
            cw == least(width as int, i32::MAX - x + 1),
            chh == least(height as int, i32::MAX - y + 1),
            cw >= 0,
            want == block_spec(x, y, width, height),
            0 <= dy <= chh,
            out@.len() == dy * cw,
            forall|k: int| 0 <= k < out@.len() ==> #[trigger] out@[k] == want[k],
        decreases chh - dy,
    {
        let mut dx: i64 = 0;
        while dx < cw
            invariant
                cw == least(width as int, i32::MAX - x + 1),
                chh == least(height as int, i32::MAX - y + 1),
                want == block_spec(x, y, width, height),
                0 <= dy < chh,
                0 <= dx <= cw,
                out@.len() == dy * cw + dx,
                forall|k: int| 0 <= k < out@.len() ==> #[trigger] out@[k] == want[k],
            decreases cw - dx,
        {
            let ghost k = dy * cw + dx;
            proof {
                vstd::arithmetic::div_mod::lemma_fundamental_div_mod_converse(k, cw as int, dy as int, dx as int);
                assert(dy * cw + dx < (dy + 1) * cw) by (nonlinear_arith)
                    requires
                        dx < cw,
                ;
                assert((dy + 1) * cw <= chh * cw) by (nonlinear_arith)
                    requires
                        dy + 1 <= chh,
                        cw >= 0,
                ;
                assert(chh * cw == cw * chh) by (nonlinear_arith);
            }
            out.push(Point { x: (x as i64 + dx) as i32, y: (y as i64 + dy) as i32 });
            assert(out@[k] == want[k]);
            dx = dx + 1;
        }
        proof {
            assert((dy + 1) * cw == dy * cw + cw) by (nonlinear_arith);
        }
        dy = dy + 1;
    }
    proof {
        if chh > 0 {
            assert(chh * cw == cw * chh) by (nonlinear_arith);
        } else {
            assert(cw * chh <= 0) by (nonlinear_arith)
                requires
                    chh <= 0,
                    cw >= 0,
            ;
        }
    }
    assert(out@ =~= want);
    out
}

/// A surface of `width` by `height` character cells.
pub trait Console {
    /// The width in cells.
    fn width(&self) -> u32;

    /// The height in cells.
    fn height(&self) -> u32;

    /// Stores `cell` at `pos`; whether `pos` was on the console.
    fn set(&mut self, pos: Point, cell: Cell) -> bool;

    /// The cell at `pos`, if `pos` is on the console.
    fn get(&self, pos: Point) -> Option<Cell>;

    /// Resets every cell to blank.
    fn clear(&mut self);

    /// Shows the cells.
    fn present(&mut self);

    /// The width and height in cells.
    fn size(&self) -> (u32, u32) {
        (self.width(), self.height())
    }

    /// Whether `pos` is on the console.
    fn in_bounds(&self, pos: Point) -> bool {
        within(pos, self.width(), self.height())
    }

    /// Fills every cell with a blank of background `bg`.
    fn clear_with_color(&mut self, bg: Color) {
        let h = self.height();
        let mut y: u32 = 0;
        while y < h
            decreases h - y,
        {
            let w = self.width();
            let mut x: u32 = 0;
            while x < w
                decreases w - x,
            {
                if x <= i32::MAX as u32 && y <= i32::MAX as u32 {
                    self.set(Point { x: x as i32, y: y as i32 }, Cell::new(' ', Color::white(), bg));
                }
                x = x + 1;
            }
            y = y + 1;
        }
    }

    /// Changes the glyph at `pos`; whether `pos` held a cell.
    fn set_char(&mut self, pos: Point, ch: char) -> bool {
        match self.get(pos) {
            Some(cell) => self.set(pos, cell.with_char(ch)),
            None => false,
        }
    }

    /// Changes the foreground at `pos`; whether `pos` held a cell.
    fn set_fg(&mut self, pos: Point, fg: Color) -> bool {
        match self.get(pos) {
            Some(cell) => self.set(pos, cell.with_fg(fg)),
            None => false,
        }
    }

    /// Changes the background at `pos`; whether `pos` held a cell.
    fn set_bg(&mut self, pos: Point, bg: Color) -> bool {
        match self.get(pos) {
            Some(cell) => self.set(pos, cell.with_bg(bg)),
            None => false,
        }
    }

    /// Stores glyph `ch` in the given colours at `pos`; whether it was stored.
    fn draw_char(&mut self, pos: Point, ch: char, fg: Color, bg: Color) -> bool {
        self.set(pos, Cell::new(ch, fg, bg))
    }

    /// Writes `text` rightward from `pos`, one glyph per cell of `string_cells` for
    /// the console's width; the number of glyphs stored, at most the number of
    /// characters.
    fn draw_string(&mut self, pos: Point, text: &str, fg: Color, bg: Color) -> (count: usize)
        ensures
            count <= text@.len(),
    {
        let cells = string_cells(pos, text, self.width());
        let mut count: usize = 0;
        let mut k: usize = 0;
        while k < cells.len()
            invariant
                count <= k <= cells@.len(),
                cells@.len() <= text@.len(),
            decreases cells.len() - k,
        {
            let (p, ch) = cells[k];
            if self.draw_char(p, ch, fg, bg) {
                count = count + 1;
            }
            k = k + 1;
        }
        count
    }

    /// Draws glyph `ch` on each cell of `vline_cells(x, y_start, y_end, ch)`: column
    /// `x` from `y_start` to `y_end` (either order); the number of cells stored.
    fn draw_vline(&mut self, x: i32, y_start: i32, y_end: i32, ch: char, fg: Color, bg: Color) -> (count: usize)
        ensures
            count <= col_spec(x, y_start as int, y_end as int, ch).len(),
    {
        let cells = vline_cells(x, y_start, y_end, ch);
        let mut count: usize = 0;
        let mut k: usize = 0;
        while k < cells.len()
            invariant
                count <= k <= cells@.len(),
            decreases cells.len() - k,
        {
            let (p, c) = cells[k];
            if self.draw_char(p, c, fg, bg) {
                count = count + 1;
            }
            k = k + 1;
        }
        count
    }

    /// Draws glyph `ch` on each cell of `hline_cells(y, x_start, x_end, ch)`: row `y`
    /// from `x_start` to `x_end` (either order); the number of cells stored.
    fn draw_hline(&mut self, y: i32, x_start: i32, x_end: i32, ch: char, fg: Color, bg: Color) -> (count: usize)
        ensures
            count <= row_spec(y, x_start as int, x_end as int, ch).len(),
    {
        let cells = hline_cells(y, x_start, x_end, ch);
        let mut count: usize = 0;
        let mut k: usize = 0;
        while k < cells.len()
            invariant
                count <= k <= cells@.len(),
            decreases cells.len() - k,
        {
            let (p, c) = cells[k];
            if self.draw_char(p, c, fg, bg) {
                count = count + 1;
            }
            k = k + 1;
        }
        count
    }

    /// Stores `cell` in each cell of `block_cells(x, y, width, height)`; the number of
    /// cells stored.
    fn fill_rect(&mut self, x: i32, y: i32, width: u32, height: u32, cell: Cell) -> (count: u64)
        ensures
            count <= block_spec(x, y, width, height).len(),
    {
        let cells = block_cells(x, y, width, height);
        let mut count: u64 = 0;
        let mut k: usize = 0;
        while k < cells.len()
            invariant
                count <= k <= cells@.len(),
            decreases cells.len() - k,
        {
            if self.set(cells[k], cell) {
                count = count + 1;
            }
            k = k + 1;
        }
        count
    }

    /// Draws the outline of the `width` by `height` block at `(x, y)` with box-drawing
    /// glyphs; nothing when either side is under 2 cells or the box leaves `i32`.
    fn draw_box(&mut self, x: i32, y: i32, width: u32, height: u32, fg: Color, bg: Color, double: bool) {
        let cells = box_outline(x, y, width, height, double);
        let mut k: usize = 0;
        while k < cells.len()
            decreases cells.len() - k,
        {
            let (p, ch) = cells[k];
            self.draw_char(p, ch, fg, bg);
            k = k + 1;
        }
    }
}

} // verus!
