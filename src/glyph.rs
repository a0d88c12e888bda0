//! Glyph records of fonts and glyph atlases.
use vstd::prelude::*;
use crate::fov::isqrt;

verus! {

/// Where a character sits in a glyph atlas, with its size and bearings.
#[derive(Clone, Copy, PartialEq, Eq, Structural, Debug)]
pub struct Glyph {
    pub character: char,
    pub atlas_x: u32,
    pub atlas_y: u32,
    pub width: u32,
    pub height: u32,
    pub bearing_x: i32,
    pub bearing_y: i32,
}

/// A character rendered by a font: its size, bearings and grey-level bitmap.
#[derive(Clone, Debug)]
pub struct RenderedGlyph {
    pub character: char,
    pub width: u32,
    pub height: u32,
    pub bearing_x: i32,
    pub bearing_y: i32,
    pub bitmap: Vec<u8>,
}

/// A source of rendered glyphs, implemented by font loaders.
pub trait Font {
    /// The font's name.
    fn name(&self) -> &str;

    /// The width of a character cell in pixels.
    fn cell_width(&self) -> u32;

    /// The height of a character cell in pixels.
    fn cell_height(&self) -> u32;

    /// The distance between baselines in pixels.
    fn line_height(&self) -> u32;

    /// The glyph of `c`, if the font has one.
    fn render_glyph(&self, c: char) -> Option<RenderedGlyph>;

    /// Whether the font has a glyph for `c`.
    fn has_glyph(&self, c: char) -> bool;
}

/// The smallest `c` with `c * c >= n`.
pub open spec fn ceil_sqrt_spec(n: int, c: int) -> bool {
    0 <= c && c * c >= n && (c == 0 || (c - 1) * (c - 1) < n)
}

/// The characters of the default set: printable ASCII, then box-drawing, block and
/// symbol characters common in roguelikes.
pub open spec fn default_charset_spec() -> Seq<char> {
    Seq::new(95, |i: int| (32 + i) as char) + seq![
        '─', '│', '┌', '┐', '└', '┘', '├', '┤', '┬', '┴', '┼', '═', '║', '╔', '╗', '╚', '╝', '╠',
        '╣', '╦', '╩', '╬', '░', '▒', '▓', '█', '▄', '▀', '▌', '▐', '●', '○', '◆', '◇', '★', '☆',
        '♠', '♣', '♥', '♦', '←', '→', '↑', '↓', '↔', '↕',
    ]
}

/// Glyphs of a font laid out on a grid of equal cells, row by row, white with the
/// glyph's coverage as alpha.
#[derive(Debug)]
pub struct GlyphAtlas {
    pub texture: Vec<u8>,
    pub texture_width: u32,
    pub texture_height: u32,
    pub cell_width: u32,
    pub cell_height: u32,
    pub columns: u32,
    pub rows: u32,
    pub glyphs: Vec<Glyph>,
}

/// The glyph sits in the cell of an occurrence of its character among `chars`.
pub open spec fn glyph_placed(g: Glyph, chars: Seq<char>, columns: int, cw: int, ch: int) -> bool {
    exists|i: int|
        0 <= i < chars.len() && chars[i] == g.character && g.atlas_x == (i % columns) * cw
            && g.atlas_y == (i / columns) * ch
}

/// No two glyphs are for the same character.
pub open spec fn distinct_chars(g: Seq<Glyph>) -> bool {
    forall|i: int, j: int| 0 <= i < j < g.len() ==> g[i].character != g[j].character
}

/// The smallest `c` with `c * c >= n`, by the integer square root.
fn ceil_sqrt(n: u32) -> (c: u32)
    ensures
        ceil_sqrt_spec(n as int, c as int),
{
    let s = isqrt(n as i64);
    proof {
        if n > 0 {
            assert(s <= 0x1_0000) by (nonlinear_arith)
                requires
                    s * s <= n,
                    s >= 0,
                    n <= 0xFFFF_FFFF,
            ;
        }
    }
    if s * s < n as i64 {
        proof {
            assert((s + 1) * (s + 1) >= n);
        }
        (s + 1) as u32
    } else {
        proof {
            if s > 0 {
                assert((s - 1) * (s - 1) < s * s) by (nonlinear_arith)
                    requires
                        s >= 1,
                ;
            }
        }
        s as u32
    }
}

/// Paints the covered pixels of `rendered` white, with its coverage as alpha, with
/// its top-left corner at `(x0, y0)` of a `tw` by `th` texture; pixels that fall
/// outside are skipped.
fn paint_glyph(texture: &mut Vec<u8>, tw: u32, th: u32, x0: u64, y0: u64, rendered: &RenderedGlyph)
    requires
        x0 <= 0x2_0000_0000,
        y0 <= 0x2_0000_0000,
    ensures
        final(texture)@.len() == old(texture)@.len(),
{
    let mut gy: u32 = 0;
    while gy < rendered.height
        invariant
            texture@.len() == old(texture)@.len(),
            x0 <= 0x2_0000_0000,
            y0 <= 0x2_0000_0000,
        decreases rendered.height - gy,
    {
        let mut gx: u32 = 0;
        while gx < rendered.width
            invariant
                texture@.len() == old(texture)@.len(),
                x0 <= 0x2_0000_0000,
                y0 <= 0x2_0000_0000,
            decreases rendered.width - gx,
        {
            proof {
                assert(gy as int * rendered.width as int <= 0xFFFF_FFFF * 0xFFFF_FFFF) by (nonlinear_arith)
                    requires
                        gy <= 0xFFFF_FFFF,
                        rendered.width <= 0xFFFF_FFFF,
                ;
                assert(gy as int * rendered.width as int >= 0) by (nonlinear_arith);
            }
            let src: u64 = gy as u64 * rendered.width as u64 + gx as u64;
            if src < rendered.bitmap.len() as u64 {
                let alpha = rendered.bitmap[src as usize];
                let tx: u64 = x0 + gx as u64;
                let ty: u64 = y0 + gy as u64;
                if alpha > 0 && tx < tw as u64 && ty < th as u64 {
                    proof {
                        assert(ty as int * tw as int <= 0xFFFF_FFFF * 0xFFFF_FFFF) by (nonlinear_arith)
                            requires
                                ty <= 0xFFFF_FFFF,
                                tw <= 0xFFFF_FFFF,
                        ;
                        assert(ty as int * tw as int >= 0) by (nonlinear_arith);
                    }
                    let dst: u128 = (ty as u128 * tw as u128 + tx as u128) * 4;
                    if dst + 3 < texture.len() as u128 {
                        let d = dst as usize;
                        texture.set(d, 255);
                        texture.set(d + 1, 255);
                        texture.set(d + 2, 255);
                        texture.set(d + 3, alpha);
                    }
                }
            }
            gx = gx + 1;
        }
        gy = gy + 1;
    }
}

/// Where the glyph of `c` sits among `glyphs`, or their count when it is absent.
fn find_glyph(glyphs: &Vec<Glyph>, c: char) -> (k: usize)
    ensures
        k <= glyphs@.len(),
        k < glyphs@.len() ==> glyphs@[k as int].character == c,
        forall|j: int| 0 <= j < k ==> glyphs@[j].character != c,
{
    let mut k: usize = 0;
    while k < glyphs.len() && glyphs[k].character != c
        invariant
            k <= glyphs@.len(),
            forall|j: int| 0 <= j < k ==> glyphs@[j].character != c,
        decreases glyphs@.len() - k,
    {
        k = k + 1;
    }
    k
}

/// Stores `glyph`, replacing the glyph of the same character if there is one.
fn insert_glyph(glyphs: &mut Vec<Glyph>, glyph: Glyph)
    requires
        distinct_chars(old(glyphs)@),
    ensures
        distinct_chars(final(glyphs)@),
        final(glyphs)@.contains(glyph),
        forall|k: int|
            0 <= k < final(glyphs)@.len() ==> #[trigger] final(glyphs)@[k] == glyph || old(
                glyphs,
            )@.contains(final(glyphs)@[k]),
{
    let ghost before = glyphs@;
    let found = find_glyph(glyphs, glyph.character);
    if found < glyphs.len() {
        glyphs.set(found, glyph);
        assert(glyphs@[found as int] == glyph);
        assert forall|k: int| 0 <= k < glyphs@.len() && k != found implies #[trigger] glyphs@[k] == before[k] by {}
        assert forall|k: int| 0 <= k < glyphs@.len() implies #[trigger] glyphs@[k] == glyph || before.contains(glyphs@[k]) by {
            if k != found {
                assert(glyphs@[k] == before[k]);
            }
        }
    } else {
        glyphs.push(glyph);
        assert(glyphs@[before.len() as int] == glyph);
        assert forall|k: int| 0 <= k < before.len() implies #[trigger] glyphs@[k] == before[k] by {}
        assert forall|k: int| 0 <= k < glyphs@.len() implies #[trigger] glyphs@[k] == glyph || before.contains(glyphs@[k]) by {
            if k < before.len() {
                assert(glyphs@[k] == before[k]);
            }
        }
    }
}

impl GlyphAtlas {
    /// The default character set: printable ASCII, then box-drawing, block and
    /// symbol characters.
    pub fn default_charset() -> (chars: Vec<char>)
        ensures
            chars@ == default_charset_spec(),
    {
        let mut chars: Vec<char> = Vec::new();
        let mut c: u8 = 32;
        while c <= 126
            invariant
                32 <= c <= 127,
                chars@ == Seq::new((c - 32) as nat, |i: int| (32 + i) as char),
            decreases 127 - c,
        {
            chars.push(c as char);
            c = c + 1;
            assert(chars@ =~= Seq::new((c - 32) as nat, |i: int| (32 + i) as char));
        }
        let extra = [
            '─', '│', '┌', '┐', '└', '┘', '├', '┤', '┬', '┴', '┼', '═', '║', '╔', '╗', '╚', '╝',
            '╠', '╣', '╦', '╩', '╬', '░', '▒', '▓', '█', '▄', '▀', '▌', '▐', '●', '○', '◆', '◇',
            '★', '☆', '♠', '♣', '♥', '♦', '←', '→', '↑', '↓', '↔', '↕',
        ];
        let ghost head = chars@;
        let mut k: usize = 0;
        while k < 46
            invariant
                k <= 46,
                extra@.len() == 46,
                chars@ == head + extra@.subrange(0, k as int),
            decreases 46 - k,
        {
            chars.push(extra[k]);
            k = k + 1;
            assert(chars@ =~= head + extra@.subrange(0, k as int));
        }
        assert(extra@ =~= seq![
            '─', '│', '┌', '┐', '└', '┘', '├', '┤', '┬', '┴', '┼', '═', '║', '╔', '╗', '╚', '╝',
            '╠', '╣', '╦', '╩', '╬', '░', '▒', '▓', '█', '▄', '▀', '▌', '▐', '●', '○', '◆', '◇',
            '★', '☆', '♠', '♣', '♥', '♦', '←', '→', '↑', '↓', '↔', '↕',
        ]);
        assert(extra@.subrange(0, 46) == extra@);
        chars
    }

    /// Lays out the glyphs of `chars` on a near-square grid of cells (as many columns
    /// as the ceiling of the square root of the count), each glyph centred in its cell.
    /// A character given twice keeps its later cell; characters the font lacks get no
    /// glyph.
    pub fn from_font_with_chars<F: Font>(font: &F, cell_width: u32, cell_height: u32, chars: Vec<char>) -> (atlas: GlyphAtlas)
        requires
            1 <= chars@.len() <= 0xFFFF_FFFF,
            1 <= cell_width,
            1 <= cell_height,
            chars@.len() * cell_width * cell_height * 8 <= u32::MAX,
        ensures
            ceil_sqrt_spec(chars@.len() as int, atlas.columns as int),
            atlas.rows == (chars@.len() + atlas.columns - 1) / atlas.columns as int,
            atlas.texture_width == atlas.columns * cell_width,
            atlas.texture_height == atlas.rows * cell_height,
            atlas.texture@.len() == atlas.texture_width * atlas.texture_height * 4,
            atlas.cell_width == cell_width,
            atlas.cell_height == cell_height,
            distinct_chars(atlas.glyphs@),
            forall|k: int|
                0 <= k < atlas.glyphs@.len() ==> #[trigger] glyph_placed(atlas.glyphs@[k], chars@, atlas.columns as int, cell_width as int, cell_height as int),
    {
        let n = chars.len() as u32;
        let columns = ceil_sqrt(n);
        proof {
            assert(columns >= 1);
            assert(columns <= n) by (nonlinear_arith)
                requires
                    ceil_sqrt_spec(n as int, columns as int),
                    n >= 1,
            ;
        }
        let rows64: u64 = (n as u64 + columns as u64 - 1) / columns as u64;
        proof {
            assert(rows64 <= n) by (nonlinear_arith)
                requires
                    rows64 == (n + columns - 1) / columns as int,
                    1 <= columns <= n,
            ;
        }
        let rows = rows64 as u32;
        proof {
            assert(rows as int * columns as int <= 2 * n) by (nonlinear_arith)
                requires
                    rows == (n + columns - 1) / columns as int,
                    1 <= columns <= n,
            ;
            assert(columns as int * cell_width as int * (rows as int * cell_height as int) * 4
                <= n as int * cell_width as int * cell_height as int * 8) by (nonlinear_arith)
                requires
                    rows as int * columns as int <= 2 * n,
            ;
            assert(0 <= columns as int * cell_width as int) by (nonlinear_arith);
            assert(0 <= rows as int * cell_height as int) by (nonlinear_arith);
            assert(rows >= 1) by (nonlinear_arith)
                requires
                    rows == (n + columns - 1) / columns as int,
                    1 <= columns <= n,
            ;
            assert(columns as int * cell_width as int <= u32::MAX) by (nonlinear_arith)
                requires
                    columns as int * cell_width as int * (rows as int * cell_height as int) * 4 <= u32::MAX,
                    rows >= 1,
                    cell_height >= 1,
                    columns >= 1,
                    cell_width >= 1,
            ;
            assert(rows as int * cell_height as int <= u32::MAX) by (nonlinear_arith)
                requires
                    columns as int * cell_width as int * (rows as int * cell_height as int) * 4 <= u32::MAX,
                    rows >= 1,
                    cell_height >= 1,
                    columns >= 1,
                    cell_width >= 1,
            ;
        }
        let texture_width = columns * cell_width;
        let texture_height = rows * cell_height;
        let size = (texture_width * texture_height * 4) as usize;
        let mut texture: Vec<u8> = Vec::new();
        let mut z: usize = 0;
        while z < size
            invariant
                z <= size,
                texture@.len() == z,
            decreases size - z,
        {
            texture.push(0);
            z = z + 1;
        }
        let mut glyphs: Vec<Glyph> = Vec::new();
        let mut idx: usize = 0;
        while idx < chars.len()
            invariant
                idx <= chars@.len(),
                chars@.len() == n,
                columns >= 1,
                texture@.len() == size,
                size == texture_width * texture_height * 4,
                distinct_chars(glyphs@),
                forall|k: int|
                    0 <= k < glyphs@.len() ==> exists|i: int|
                        0 <= i < chars@.len() && chars@[i] == (#[trigger] glyphs@[k]).character
                            && glyphs@[k].atlas_x == (i % columns as int) * cell_width
                            && glyphs@[k].atlas_y == (i / columns as int) * cell_height,
                columns as int * cell_width as int <= u32::MAX,
                rows as int * cell_height as int <= u32::MAX,
                rows == (n + columns - 1) / columns as int,
            decreases chars@.len() - idx,
        {
            let c = chars[idx];
            let col = (idx as u32) % columns;
            let row = (idx as u32) / columns;
            proof {
                assert(row < rows) by (nonlinear_arith)
                    requires
                        row == idx as int / columns as int,
                        idx < n,
                        rows == (n + columns - 1) / columns as int,
                        columns >= 1,
                ;
                assert(col as int * cell_width as int <= columns as int * cell_width as int) by (nonlinear_arith)
                    requires
                        col < columns,
                ;
                assert(row as int * cell_height as int <= rows as int * cell_height as int) by (nonlinear_arith)
                    requires
                        row < rows,
                ;
            }
            let atlas_x = col * cell_width;
            let atlas_y = row * cell_height;
            match font.render_glyph(c) {
                Some(rendered) => {
                    let offset_x = (if cell_width > rendered.width { cell_width - rendered.width } else { 0 }) / 2;
                    let offset_y = (if cell_height > rendered.height { cell_height - rendered.height } else { 0 }) / 2;
                    paint_glyph(&mut texture, texture_width, texture_height, atlas_x as u64 + offset_x as u64, atlas_y as u64 + offset_y as u64, &rendered);
                    let glyph = Glyph {
                        character: c,
                        atlas_x,
                        atlas_y,
                        width: rendered.width,
                        height: rendered.height,
                        bearing_x: rendered.bearing_x,
                        bearing_y: rendered.bearing_y,
                    };
                    let ghost before = glyphs@;
                    proof {
                        assert(glyph.atlas_x == (idx as int % columns as int) * cell_width);
                        assert(glyph.atlas_y == (idx as int / columns as int) * cell_height);
                    }
                    insert_glyph(&mut glyphs, glyph);
                    assert forall|k: int| 0 <= k < glyphs@.len() implies exists|i: int|
                        0 <= i < chars@.len() && chars@[i] == (#[trigger] glyphs@[k]).character
                            && glyphs@[k].atlas_x == (i % columns as int) * cell_width
                            && glyphs@[k].atlas_y == (i / columns as int) * cell_height by {
                        if glyphs@[k] == glyph {
                            assert(chars@[idx as int] == glyphs@[k].character);
                        } else {
                            let j = choose|j: int| 0 <= j < before.len() && before[j] == glyphs@[k];
                            assert(before[j] == glyphs@[k]);
                        }
                    }
                },
                None => {},
            }
            idx = idx + 1;
        }
        let ghost g = glyphs@;
        let atlas = GlyphAtlas { texture, texture_width, texture_height, cell_width, cell_height, columns, rows, glyphs };
        assert(atlas.glyphs@ == g && atlas.columns == columns);
        assert forall|k: int| 0 <= k < atlas.glyphs@.len() implies #[trigger] glyph_placed(atlas.glyphs@[k], chars@, atlas.columns as int, cell_width as int, cell_height as int) by {
            assert(g[k] == atlas.glyphs@[k]);
            let i = choose|i: int|
                0 <= i < chars@.len() && chars@[i] == g[k].character
                    && g[k].atlas_x == (i % columns as int) * cell_width
                    && g[k].atlas_y == (i / columns as int) * cell_height;
            assert(chars@[i] == atlas.glyphs@[k].character);
        }
        atlas
    }

    /// The atlas of the default character set.
    pub fn from_font<F: Font>(font: &F, cell_width: u32, cell_height: u32) -> (atlas: GlyphAtlas)
        requires
            1 <= cell_width,
            1 <= cell_height,
            141 * cell_width * cell_height * 8 <= u32::MAX,
        ensures
            atlas.cell_width == cell_width,
            atlas.cell_height == cell_height,
            distinct_chars(atlas.glyphs@),
    {
        let chars = GlyphAtlas::default_charset();
        GlyphAtlas::from_font_with_chars(font, cell_width, cell_height, chars)
    }

    /// The glyph of `c`, if the atlas has one.
    pub fn get_glyph(&self, c: char) -> (r: Option<&Glyph>)
        ensures
            r is None <==> (forall|k: int| 0 <= k < self.glyphs@.len() ==> self.glyphs@[k].character != c),
            r matches Some(g) ==> g.character == c && self.glyphs@.contains(*g),
    {
        let mut k: usize = 0;
        while k < self.glyphs.len()
            invariant
                k <= self.glyphs@.len(),
                forall|j: int| 0 <= j < k ==> self.glyphs@[j].character != c,
            decreases self.glyphs@.len() - k,
        {
            if self.glyphs[k].character == c {
                assert(self.glyphs@[k as int] == self.glyphs@[k as int]);
                return Some(&self.glyphs[k]);
            }
            k = k + 1;
        }
        None
    }

    /// The number of glyphs.
    pub fn len(&self) -> (n: usize)
        ensures
            n == self.glyphs@.len(),
    {
        self.glyphs.len()
    }

    /// Whether the atlas has no glyphs.
    pub fn is_empty(&self) -> (r: bool)
        ensures
            r == (self.glyphs@.len() == 0),
    {
        self.glyphs.len() == 0
    }
}

} // verus!
