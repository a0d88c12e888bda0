//! Tilesets: an RGBA sheet cut into equal tiles, numbered row by row.
use vstd::prelude::*;
use vstd::arithmetic::div_mod::lemma_fundamental_div_mod_converse;
use crate::color::Color;
use crate::cp437::{char_to_cp437, cp437_spec};

verus! {

/// Why a tileset or font could not be made.
#[derive(Clone, PartialEq, Eq, Debug)]
pub enum TilesetError {
    TrueTypeFontError(String),
    BdfFontError(String),
    InvalidDimensions(String),
    CharacterNotFound(char),
}

/// An image of `width` by `height` pixels, four bytes (red, green, blue, alpha) each,
/// row by row.
#[derive(Clone, Debug)]
pub struct RgbaImage {
    width: u32,
    height: u32,
    pixels: Vec<u8>,
}

impl RgbaImage {
    /// The width in pixels.
    pub closed spec fn spec_width(&self) -> int {
        self.width as int
    }

    /// The height in pixels.
    pub closed spec fn spec_height(&self) -> int {
        self.height as int
    }

    /// The bytes, four per pixel, row by row.
    pub closed spec fn spec_pixels(&self) -> Seq<u8> {
        self.pixels@
    }

    /// The bytes are exactly four per pixel, a count that fits `u32`.
    pub closed spec fn wf(&self) -> bool {
        &&& self.pixels@.len() == self.width * self.height * 4
        &&& self.width * self.height * 4 <= u32::MAX
    }

    /// The image over `pixels`, when there are exactly four bytes per pixel.
    pub fn from_raw(width: u32, height: u32, pixels: Vec<u8>) -> (r: Option<RgbaImage>)
        ensures
            r is Some <==> (pixels@.len() == width * height * 4 && width * height * 4 <= u32::MAX),
            r matches Some(img) ==> img.wf() && img.spec_width() == width && img.spec_height()
                == height && img.spec_pixels() == pixels@,
    {
        assert(width as int * height as int <= 0xFFFF_FFFF * 0xFFFF_FFFF) by (nonlinear_arith)
            requires
                width <= 0xFFFF_FFFF,
                height <= 0xFFFF_FFFF,
        ;
        assert(width as int * height as int >= 0) by (nonlinear_arith);
        let n: u64 = width as u64 * height as u64;
        if n > 0x4000_0000 {
            proof {
                assert(width as int * height as int * 4 > u32::MAX);
            }
            return None;
        }
        if n * 4 > u32::MAX as u64 || pixels.len() as u64 != n * 4 {
            return None;
        }
        Some(RgbaImage { width, height, pixels })
    }

    /// The width in pixels.
    pub fn width(&self) -> (w: u32)
        ensures
            w == self.spec_width(),
    {
        self.width
    }

    /// The height in pixels.
    pub fn height(&self) -> (h: u32)
        ensures
            h == self.spec_height(),
    {
        self.height
    }
}

/// One tile: its number, size, place on the sheet, and its own RGBA bytes.
#[derive(Clone, Debug)]
pub struct Tile {
    pub index: u32,
    pub width: u32,
    pub height: u32,
    pub src_x: u32,
    pub src_y: u32,
    pub pixels: Vec<u8>,
}

/// The four bytes of pixel `(x, y)` of a tile, when they are there.
pub open spec fn tile_pixel_spec(t: Tile, x: int, y: int) -> Option<[u8; 4]> {
    let i = (y * t.width + x) * 4;
    if 0 <= x < t.width && 0 <= y < t.height && i + 3 < t.pixels@.len() {
        Some([t.pixels@[i], t.pixels@[i + 1], t.pixels@[i + 2], t.pixels@[i + 3]])
    } else {
        None
    }
}

impl Tile {
    /// The red, green, blue and alpha bytes of pixel `(x, y)`; `None` outside the tile.
    pub fn get_pixel(&self, x: u32, y: u32) -> (r: Option<[u8; 4]>)
        ensures
            r == tile_pixel_spec(*self, x as int, y as int),
    {
        if x >= self.width || y >= self.height {
            return None;
        }
        proof {
            assert(0 <= y as int * self.width as int <= 0xFFFF_FFFF * 0xFFFF_FFFF) by (nonlinear_arith)
                requires
                    y <= 0xFFFF_FFFF,
                    self.width <= 0xFFFF_FFFF,
            ;
        }
        let i: u128 = (y as u128 * self.width as u128 + x as u128) * 4;
        if i + 3 < self.pixels.len() as u128 {
            let k = i as usize;
            Some([self.pixels[k], self.pixels[k + 1], self.pixels[k + 2], self.pixels[k + 3]])
        } else {
            None
        }
    }

    /// The colour of pixel `(x, y)`; `None` outside the tile.
    pub fn get_color(&self, x: u32, y: u32) -> (r: Option<Color>)
        ensures
            r matches Some(c) ==> tile_pixel_spec(*self, x as int, y as int) == Some([c.r, c.g, c.b, c.a]),
            r is None <==> tile_pixel_spec(*self, x as int, y as int) is None,
    {
        match self.get_pixel(x, y) {
            Some(p) => Some(Color::rgba(p[0], p[1], p[2], p[3])),
            None => None,
        }
    }
}

/// The bytes of the `tw` by `th` block of `img` whose top-left pixel is
/// `(src_x, src_y)`, row by row.
pub open spec fn block_spec(img: RgbaImage, src_x: int, src_y: int, tw: int, th: int) -> Seq<u8> {
    Seq::new(
        (tw * th * 4) as nat,
        |i: int|
            img.spec_pixels()[((src_y + (i / 4) / tw) * img.spec_width() + src_x + (i / 4) % tw) * 4
                + i % 4],
    )
}

/// The tile numbered `k` of a sheet cut into `columns` columns of `tw` by `th` tiles.
pub open spec fn tile_spec(img: RgbaImage, tw: int, th: int, columns: int, k: int) -> Tile {
    Tile {
        index: k as u32,
        width: tw as u32,
        height: th as u32,
        src_x: ((k % columns) * tw) as u32,
        src_y: ((k / columns) * th) as u32,
        pixels: arbitrary(),
    }
}

/// A sheet cut into tiles.
#[derive(Clone, Debug)]
pub struct Tileset {
    pub tiles: Vec<Tile>,
    pub tile_width: u32,
    pub tile_height: u32,
    pub columns: u32,
    pub rows: u32,
    pub texture: Vec<u8>,
    pub texture_width: u32,
    pub texture_height: u32,
}

proof fn lemma_split(a: int, d: int, q: int, r: int)
    requires
        d > 0,
        0 <= r < d,
        a == q * d + r,
    ensures
        a / d == q,
        a % d == r,
{
    lemma_fundamental_div_mod_converse(a, d, q, r);
}

/// The bytes of one tile, copied from the sheet.
fn copy_block(img: &RgbaImage, src_x: u32, src_y: u32, tw: u32, th: u32) -> (px: Vec<u8>)
    requires
        img.wf(),
        tw >= 1,
        th >= 1,
        src_x + tw <= img.spec_width(),
        src_y + th <= img.spec_height(),
    ensures
        px@ == block_spec(*img, src_x as int, src_y as int, tw as int, th as int),
{
    let ghost w = img.width as int;
    let ghost h = img.height as int;
    let mut px: Vec<u8> = Vec::new();
    let mut ty: u32 = 0;
    proof {
        assert(tw as int * th as int <= w * h) by (nonlinear_arith)
            requires
                tw <= w,
                th <= h,
                tw >= 1,
                th >= 1,
        ;
    }
    while ty < th
        invariant
            img.wf(),
            w == img.width,
            h == img.height,
            tw >= 1,
            th >= 1,
            src_x + tw <= w,
            src_y + th <= h,
            ty <= th,
            px@.len() == ty * tw * 4,
            forall|i: int|
                0 <= i < px@.len() ==> #[trigger] px@[i] == block_spec(*img, src_x as int, src_y as int, tw as int, th as int)[i],
        decreases th - ty,
    {
        let mut tx: u32 = 0;
        while tx < tw
            invariant
                img.wf(),
                w == img.width,
                h == img.height,
                tw >= 1,
                th >= 1,
                src_x + tw <= w,
                src_y + th <= h,
                ty < th,
                tx <= tw,
                px@.len() == (ty * tw + tx) * 4,
                forall|i: int|
                    0 <= i < px@.len() ==> #[trigger] px@[i] == block_spec(*img, src_x as int, src_y as int, tw as int, th as int)[i],
            decreases tw - tx,
        {
            let ghost p = ty * tw + tx;
            proof {
                assert((src_y + ty) as int * w + src_x + tx < w * h) by (nonlinear_arith)
                    requires
                        src_y + ty < h,
                        src_x + tx < w,
                        w >= 0,
                ;
                assert(p < tw * th) by (nonlinear_arith)
                    requires
                        p == ty * tw + tx,
                        ty < th,
                        tx < tw,
                ;
            }
            let base: usize = (((src_y as u64 + ty as u64) * img.width as u64 + src_x as u64 + tx as u64) * 4) as usize;
            let mut c: usize = 0;
            while c < 4
                invariant
                    img.wf(),
                    w == img.width,
                    tw >= 1,
                    th >= 1,
                    ty < th,
                    tx < tw,
                    p == ty * tw + tx,
                    p < tw * th,
                    base == ((src_y + ty) * w + src_x + tx) * 4,
                    (src_y + ty) as int * w + src_x + tx < w * img.height,
                    c <= 4,
                    px@.len() == p * 4 + c,
                    forall|i: int|
                        0 <= i < px@.len() ==> #[trigger] px@[i] == block_spec(*img, src_x as int, src_y as int, tw as int, th as int)[i],
                decreases 4 - c,
            {
                let ghost i = p * 4 + c;
                proof {
                    lemma_split(i, 4, p, c as int);
                    lemma_split(p, tw as int, ty as int, tx as int);
                    assert(i < tw * th * 4);
                }
                px.push(img.pixels[base + c]);
                c = c + 1;
            }
            tx = tx + 1;
        }
        proof {
            assert((ty + 1) as int * tw as int == ty as int * tw as int + tw) by (nonlinear_arith);
        }
        ty = ty + 1;
    }
    proof {
        assert(th as int * tw as int == tw as int * th as int) by (nonlinear_arith);
    }
    assert(px@ =~= block_spec(*img, src_x as int, src_y as int, tw as int, th as int));
    px
}

impl Tileset {
    /// The tiles, numbered row by row.
    pub closed spec fn spec_tiles(&self) -> Seq<Tile> {
        self.tiles@
    }

    /// Cuts `img` into `tile_width` by `tile_height` tiles, as many whole tiles as fit
    /// across and down, numbered row by row; each tile holds a copy of its pixels.
    /// Fails when a side of the tile is zero or larger than the image.
    pub fn from_image(img: RgbaImage, tile_width: u32, tile_height: u32) -> (r: Result<Tileset, TilesetError>)
        requires
            img.wf(),
        ensures
            r is Err <==> (tile_width == 0 || tile_height == 0 || img.spec_width() < tile_width
                || img.spec_height() < tile_height),
            r matches Err(e) ==> e is InvalidDimensions,
            r matches Ok(ts) ==> {
                &&& ts.tile_width == tile_width
                &&& ts.tile_height == tile_height
                &&& ts.columns == img.spec_width() / tile_width as int
                &&& ts.rows == img.spec_height() / tile_height as int
                &&& ts.texture@ == img.spec_pixels()
                &&& ts.texture_width == img.spec_width()
                &&& ts.texture_height == img.spec_height()
                &&& ts.spec_tiles().len() == ts.columns * ts.rows
                &&& forall|k: int|
                    0 <= k < ts.spec_tiles().len() ==> {
                        let t = #[trigger] ts.spec_tiles()[k];
                        let s = tile_spec(img, tile_width as int, tile_height as int, ts.columns as int, k);
                        &&& t.index == s.index
                        &&& t.width == s.width
                        &&& t.height == s.height
                        &&& t.src_x == s.src_x
                        &&& t.src_y == s.src_y
                        &&& t.pixels@ == block_spec(img, t.src_x as int, t.src_y as int, tile_width as int, tile_height as int)
                    }
            },
    {
        let img_width = img.width;
        let img_height = img.height;
        if tile_width == 0 || tile_height == 0 {
            return Err(TilesetError::InvalidDimensions(String::from_str("tile dimensions must be non-zero")));
        }
        if img_width < tile_width || img_height < tile_height {
            return Err(TilesetError::InvalidDimensions(String::from_str("image is smaller than the tile size")));
        }
        let columns = img_width / tile_width;
        let rows = img_height / tile_height;
        proof {
            assert(columns as int * tile_width as int <= img_width) by (nonlinear_arith)
                requires
                    columns == img_width as int / tile_width as int,
                    tile_width >= 1,
            ;
            assert(rows as int * tile_height as int <= img_height) by (nonlinear_arith)
                requires
                    rows == img_height as int / tile_height as int,
                    tile_height >= 1,
            ;
            assert(columns >= 1 && rows >= 1) by (nonlinear_arith)
                requires
                    columns == img_width as int / tile_width as int,
                    rows == img_height as int / tile_height as int,
                    tile_width <= img_width,
                    tile_height <= img_height,
                    tile_width >= 1,
                    tile_height >= 1,
            ;
            assert(columns as int * rows as int <= img_width as int * img_height as int) by (nonlinear_arith)
                requires
                    columns as int * tile_width as int <= img_width,
                    rows as int * tile_height as int <= img_height,
                    tile_width >= 1,
                    tile_height >= 1,
                    columns >= 1,
                    rows >= 1,
            ;
        }
        let mut tiles: Vec<Tile> = Vec::new();
        let mut row: u32 = 0;
        while row < rows
            invariant
                img.wf(),
                img_width == img.spec_width(),
                img_height == img.spec_height(),
                tile_width >= 1,
                tile_height >= 1,
                columns >= 1,
                columns == img_width as int / tile_width as int,
                rows == img_height as int / tile_height as int,
                columns as int * tile_width as int <= img_width,
                rows as int * tile_height as int <= img_height,
                columns as int * rows as int <= img_width as int * img_height as int,
                row <= rows,
                tiles@.len() == row * columns,
                forall|k: int|
                    0 <= k < tiles@.len() ==> {
                        let t = #[trigger] tiles@[k];
                        let s = tile_spec(img, tile_width as int, tile_height as int, columns as int, k);
                        &&& t.index == s.index
                        &&& t.width == s.width
                        &&& t.height == s.height
                        &&& t.src_x == s.src_x
                        &&& t.src_y == s.src_y
                        &&& t.pixels@ == block_spec(img, t.src_x as int, t.src_y as int, tile_width as int, tile_height as int)
                    },
            decreases rows - row,
        {
            let mut col: u32 = 0;
            while col < columns
                invariant
                    img.wf(),
                    img_width == img.spec_width(),
                    img_height == img.spec_height(),
                    tile_width >= 1,
                    tile_height >= 1,
                    columns >= 1,
                    columns as int * tile_width as int <= img_width,
                    rows as int * tile_height as int <= img_height,
                    columns as int * rows as int <= img_width as int * img_height as int,
                    row < rows,
                    col <= columns,
                    tiles@.len() == row * columns + col,
                    forall|k: int|
                        0 <= k < tiles@.len() ==> {
                            let t = #[trigger] tiles@[k];
                            let s = tile_spec(img, tile_width as int, tile_height as int, columns as int, k);
                            &&& t.index == s.index
                            &&& t.width == s.width
                            &&& t.height == s.height
                            &&& t.src_x == s.src_x
                            &&& t.src_y == s.src_y
                            &&& t.pixels@ == block_spec(img, t.src_x as int, t.src_y as int, tile_width as int, tile_height as int)
                        },
                decreases columns - col,
            {
                let ghost k = row * columns + col;
                proof {
                    lemma_split(k, columns as int, row as int, col as int);
                    assert(k < columns as int * rows as int) by (nonlinear_arith)
                        requires
                            k == row * columns + col,
                            row < rows,
                            col < columns,
                    ;
                    assert((col + 1) as int * tile_width as int <= img_width) by (nonlinear_arith)
                        requires
                            col < columns,
                            columns as int * tile_width as int <= img_width,
                            tile_width >= 1,
                    ;
                    assert((row + 1) as int * tile_height as int <= img_height) by (nonlinear_arith)
                        requires
                            row < rows,
                            rows as int * tile_height as int <= img_height,
                            tile_height >= 1,
                    ;
                    assert(col as int * tile_width as int + tile_width == (col + 1) as int * tile_width as int) by (nonlinear_arith);
                    assert(row as int * tile_height as int + tile_height == (row + 1) as int * tile_height as int) by (nonlinear_arith);
                    assert(img_width as int * img_height as int <= u32::MAX) by (nonlinear_arith)
                        requires
                            img_width as int * img_height as int * 4 <= u32::MAX,
                    ;
                }
                let index = row * columns + col;
                let src_x = col * tile_width;
                let src_y = row * tile_height;
                let pixels = copy_block(&img, src_x, src_y, tile_width, tile_height);
                tiles.push(Tile { index, width: tile_width, height: tile_height, src_x, src_y, pixels });
                col = col + 1;
            }
            proof {
                assert((row + 1) as int * columns as int == row as int * columns as int + columns) by (nonlinear_arith);
            }
            row = row + 1;
        }
        proof {
            assert(rows as int * columns as int == columns as int * rows as int) by (nonlinear_arith);
        }
        let texture_width = img.width;
        let texture_height = img.height;
        Ok(Tileset {
            tiles,
            tile_width,
            tile_height,
            columns,
            rows,
            texture: img.pixels,
            texture_width,
            texture_height,
        })
    }

    /// The tile numbered `index`, if there is one.
    pub fn get_tile(&self, index: u32) -> (r: Option<&Tile>)
        ensures
            r is None <==> index >= self.spec_tiles().len(),
            r matches Some(t) ==> *t == self.spec_tiles()[index as int],
    {
        if (index as usize) < self.tiles.len() {
            Some(&self.tiles[index as usize])
        } else {
            None
        }
    }

    /// The tile in column `col` of row `row`; `None` off the grid or past the tiles.
    pub fn get_tile_at(&self, col: u32, row: u32) -> (r: Option<&Tile>)
        ensures
            r is None <==> (col >= self.columns || row >= self.rows || row * self.columns + col
                >= self.spec_tiles().len()),
            r matches Some(t) ==> *t == self.spec_tiles()[row * self.columns + col],
    {
        if col >= self.columns || row >= self.rows {
            return None;
        }
        proof {
            assert(0 <= row as int * self.columns as int <= 0xFFFF_FFFF * 0xFFFF_FFFF) by (nonlinear_arith)
                requires
                    row <= 0xFFFF_FFFF,
                    self.columns <= 0xFFFF_FFFF,
            ;
        }
        let index: u128 = row as u128 * self.columns as u128 + col as u128;
        if index < self.tiles.len() as u128 {
            Some(&self.tiles[index as usize])
        } else {
            None
        }
    }

    /// The tile that code page 437 places `c` on; `None` for characters outside the
    /// code page or past the tiles.
    pub fn get_cp437_tile(&self, c: char) -> (r: Option<&Tile>)
        ensures
            r matches Some(t) ==> exists|code: u8| cp437_spec(code) == c && *t == self.spec_tiles()[code as int],
    {
        match char_to_cp437(c) {
            Some(code) => self.get_tile(code as u32),
            None => None,
        }
    }

    /// The number of tiles.
    pub fn len(&self) -> (n: usize)
        ensures
            n == self.spec_tiles().len(),
    {
        self.tiles.len()
    }

    /// Whether there are no tiles.
    pub fn is_empty(&self) -> (r: bool)
        ensures
            r == (self.spec_tiles().len() == 0),
    {
        self.tiles.len() == 0
    }

    /// The tiles, numbered row by row.
    pub fn iter(&self) -> (t: &[Tile])
        ensures
            t@ == self.spec_tiles(),
    {
        self.tiles.as_slice()
    }
}

} // verus!
