use runeforge::color::Color;
use runeforge::cp437::{char_to_cp437, cp437_to_char};
use runeforge::direction::{Coord3, Direction, DOWN, EAST, NORTH, SOUTH, UP, WEST};
use runeforge::glyph::{Font, Glyph, GlyphAtlas, RenderedGlyph};
use runeforge::input::{screen_delta, MouseButton, VirtualKey};
use runeforge::point::Point;
use runeforge::rect::Rect;

#[test]
fn test_color_creation() {
    let c = Color::rgb(255, 128, 64);
    assert_eq!(c.r, 255);
    assert_eq!(c.g, 128);
    assert_eq!(c.b, 64);
    assert_eq!(c.a, 255);
}

#[test]
fn test_grayscale() {
    let gray = Color::grayscale(100);
    assert_eq!(gray.r, 100);
    assert_eq!(gray.g, 100);
    assert_eq!(gray.b, 100);
}

#[test]
fn test_multiply() {
    let red = Color::rgb(255, 0, 0);
    let half = Color::grayscale(128);
    let dark_red = red.multiply(half);
    assert_eq!(dark_red.r, 128);
    assert_eq!(dark_red.g, 0);
    assert_eq!(dark_red.b, 0);
}

#[test]
fn multiply_rounds_down() {
    let c = Color::rgba(100, 200, 1, 254).multiply(Color::rgba(100, 254, 254, 254));
    assert_eq!(c, Color::rgba(39, 199, 0, 253));
}

#[test]
fn test_screen_delta() {
    assert_eq!(screen_delta(Direction::new(NORTH)), (0, -1));
    assert_eq!(screen_delta(Direction::new(SOUTH)), (0, 1));
    assert_eq!(screen_delta(Direction::new(EAST)), (1, 0));
    assert_eq!(screen_delta(Direction::new(WEST)), (-1, 0));
    assert_eq!(screen_delta(Direction::new(NORTH | EAST)), (1, -1));
    assert_eq!(screen_delta(Direction::new(SOUTH | WEST)), (-1, 1));
}

#[test]
fn input_values() {
    let k = VirtualKey::Move(Direction::new(NORTH));
    assert_ne!(k, VirtualKey::Confirm);
    assert_eq!(MouseButton::Other(4), MouseButton::Other(4));
}

#[test]
fn direction_coords_and_flags() {
    let ne = Direction::new(NORTH | EAST);
    assert_eq!(ne.coord(), Point::new(1, 1));
    assert!(ne.is_ordinal());
    assert!(!ne.is_cardinal());
    assert!(Direction::new(WEST).is_cardinal());
    let up_sw = Direction::new(UP | SOUTH | WEST);
    assert_eq!(up_sw.coord3d(), Coord3 { x: -1, y: -1, z: 1 });
    assert_eq!(Direction::from_ivec3(Coord3 { x: 5, y: -2, z: -9 }), Direction::new(EAST | SOUTH | DOWN));
    assert_eq!(Direction::from_coord(Point::new(0, 0)), Direction::new(0));
    assert_eq!(Direction::from_coord(Point::new(-3, 7)), Direction::new(WEST | NORTH));
    assert!(up_sw.has_up() && !up_sw.has_down() && up_sw.has_south() && !up_sw.has_north());
}

#[test]
fn direction_turns() {
    let n = Direction::new(NORTH);
    assert_eq!(n.left45(), Direction::new(NORTH | WEST));
    assert_eq!(n.left90(), Direction::new(WEST));
    assert_eq!(n.left135(), Direction::new(SOUTH | WEST));
    assert_eq!(n.right45(), Direction::new(NORTH | EAST));
    assert_eq!(n.right90(), Direction::new(EAST));
    assert_eq!(n.right135(), Direction::new(SOUTH | EAST));
    assert_eq!(Direction::new(SOUTH | EAST).left45(), Direction::new(EAST));
    assert_eq!(Direction::new(UP | WEST).right90(), Direction::new(UP | NORTH));
    assert_eq!(Direction::new(UP).left90(), Direction::new(UP));
    assert_eq!(Direction::new(NORTH | EAST | UP).opposite(), Direction::new(SOUTH | WEST | DOWN));
}

#[test]
fn rect_geometry() {
    let r = Rect::new(Point::new(4, 6), Point::new(1, 2));
    assert_eq!(r.min(), Point::new(1, 2));
    assert_eq!(r.max(), Point::new(4, 6));
    assert_eq!((r.width(), r.height()), (3, 4));
    assert_eq!(r, Rect::new(Point::new(1, 2), Point::new(4, 6)));
    let m = Rect::new(Point::new(10, 10), Point::new(0, 0));
    assert_eq!((m.min(), m.max()), (Point::new(0, 0), Point::new(10, 10)));
    let mixed = Rect::new(Point::new(5, 0), Point::new(0, 7));
    assert_eq!((mixed.min(), mixed.max()), (Point::new(0, 0), Point::new(5, 7)));
    let r = Rect::new_xywh(1, 2, 4, 6);
    assert_eq!((r.width(), r.height()), (4, 6));
    assert_eq!(r.center(), Point::new(3, 5));
    assert_eq!((r.left(), r.right(), r.bottom(), r.top()), (1, 5, 2, 8));
    assert!(!r.is_square());
    assert!(Rect::new_with_size(Point::new(-3, -3), (2, 2)).is_square());
    assert_eq!(Rect::new_xywh(-3, -3, 0, 0).center(), Point::new(-3, -3));
    assert_eq!(Rect::new_xywh(-3, 0, 2, 1).center(), Point::new(-2, 0));
    assert!(r.intersects(Rect::new_xywh(5, 8, 1, 1)));
    assert!(!r.intersects(Rect::new_xywh(6, 8, 1, 1)));
}

#[test]
fn test_char_to_cp437_ascii() {
    assert_eq!(char_to_cp437('@'), Some(64));
    assert_eq!(char_to_cp437('A'), Some(65));
    assert_eq!(char_to_cp437(' '), Some(32));
    assert_eq!(char_to_cp437('#'), Some(35));
}

#[test]
fn test_char_to_cp437_box_drawing() {
    assert_eq!(char_to_cp437('─'), Some(196));
    assert_eq!(char_to_cp437('│'), Some(179));
    assert_eq!(char_to_cp437('┌'), Some(218));
    assert_eq!(char_to_cp437('█'), Some(219));
}

#[test]
fn test_char_to_cp437_special() {
    assert_eq!(char_to_cp437('☺'), Some(1));
    assert_eq!(char_to_cp437('☻'), Some(2));
    assert_eq!(char_to_cp437('♥'), Some(3));
    assert_eq!(char_to_cp437('░'), Some(176));
}

#[test]
fn test_cp437_roundtrip() {
    for c in ['@', '#', '.', ' ', 'A', 'z', '0', '9'] {
        if let Some(cp) = char_to_cp437(c) {
            assert_eq!(cp437_to_char(cp), c);
        }
    }
}

#[test]
fn cp437_every_code_round_trips_where_mapped() {
    for code in 0..=255u8 {
        let c = cp437_to_char(code);
        if let Some(back) = char_to_cp437(c) {
            assert_eq!(cp437_to_char(back), c);
        }
    }
    assert_eq!(cp437_to_char(0), '\0');
    assert_eq!(cp437_to_char(255), ' ');
    assert_eq!(char_to_cp437('x'), Some(120));
    assert_eq!(char_to_cp437('\u{1F600}'), None);
}

#[test]
fn test_rendered_glyph_struct() {
    let glyph = RenderedGlyph {
        character: '@',
        width: 8,
        height: 8,
        bearing_x: 0,
        bearing_y: 8,
        bitmap: vec![255; 64],
    };
    assert_eq!(glyph.character, '@');
    assert_eq!(glyph.width, 8);
    assert_eq!(glyph.height, 8);
    assert_eq!(glyph.bitmap.len(), 64);
    let g = Glyph { character: 'a', atlas_x: 1, atlas_y: 2, width: 3, height: 4, bearing_x: 0, bearing_y: 0 };
    assert_eq!(g.atlas_y, 2);
}

#[test]
fn direction_text() {
    assert_eq!(Direction::new(NORTH | EAST).to_display_string(), "Direction(NORTH, EAST)");
    assert_eq!(Direction::new(0).to_display_string(), "Direction()");
    assert_eq!(Direction::new(WEST | DOWN | UP).to_display_string(), "Direction(WEST, UP, DOWN)");
}

struct BlockFont;

impl Font for BlockFont {
    fn name(&self) -> &str {
        "block"
    }

    fn cell_width(&self) -> u32 {
        4
    }

    fn cell_height(&self) -> u32 {
        4
    }

    fn line_height(&self) -> u32 {
        4
    }

    fn render_glyph(&self, c: char) -> Option<RenderedGlyph> {
        if c == '?' {
            return None;
        }
        Some(RenderedGlyph { character: c, width: 2, height: 2, bearing_x: 0, bearing_y: 2, bitmap: vec![200; 4] })
    }

    fn has_glyph(&self, c: char) -> bool {
        c != '?'
    }
}

#[test]
fn test_default_charset() {
    let chars = GlyphAtlas::default_charset();
    assert!(chars.len() >= 95);
    assert!(chars.contains(&'A'));
    assert!(chars.contains(&'@'));
    assert!(chars.contains(&'#'));
    assert!(chars.contains(&' '));
    assert_eq!(chars.len(), 141);
    assert_eq!(chars[140], '↕');
}

#[test]
fn atlas_lays_glyphs_on_a_square_grid() {
    let atlas = GlyphAtlas::from_font_with_chars(&BlockFont, 4, 4, vec!['a', 'b', '?', 'c', 'a']);
    assert_eq!((atlas.columns, atlas.rows), (3, 2));
    assert_eq!((atlas.texture_width, atlas.texture_height), (12, 8));
    assert_eq!(atlas.texture.len(), 12 * 8 * 4);
    assert_eq!(atlas.len(), 3);
    let a = atlas.get_glyph('a').unwrap();
    assert_eq!((a.atlas_x, a.atlas_y), (4, 4));
    let c = atlas.get_glyph('c').unwrap();
    assert_eq!((c.atlas_x, c.atlas_y), (0, 4));
    assert!(atlas.get_glyph('?').is_none());
    let centre = ((1 * 12 + 1) * 4) as usize;
    assert_eq!(&atlas.texture[centre..centre + 4], &[255, 255, 255, 200]);
    assert_eq!(atlas.texture[0], 0);
    let full = GlyphAtlas::from_font(&BlockFont, 4, 4);
    assert_eq!(full.len(), 140);
    assert_eq!(full.columns, 12);
    assert!(!full.is_empty());
}

#[test]
fn cp437_accented_letters_have_no_code_here() {
    assert_eq!(cp437_to_char(128), 'Ç');
    assert_eq!(char_to_cp437('Ç'), None);
    assert_eq!(char_to_cp437('⌂'), None);
    assert_eq!(char_to_cp437('\u{7f}'), None);
    assert_eq!(char_to_cp437('■'), Some(254));
    assert_eq!(char_to_cp437('\0'), Some(0));
}

#[test]
fn turns_and_reversal_round_trip() {
    for bits in 0u8..64 {
        let d = Direction::new(bits);
        let canonical = Direction::from_ivec3(d.coord3d());
        if canonical == d {
            assert_eq!(d.right45().left45(), d);
            assert_eq!(d.left45().right45(), d);
            assert_eq!(d.opposite().opposite(), d);
        }
    }
}
