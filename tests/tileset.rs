use runeforge::color::Color;
use runeforge::tileset::{RgbaImage, Tileset, TilesetError};

#[test]
fn test_tile_dimensions() {
    let pixels: Vec<u8> = vec![
        255, 0, 0, 255, //
        0, 255, 0, 255, //
        0, 0, 255, 255, //
        255, 255, 0, 255,
    ];
    let img = RgbaImage::from_raw(2, 2, pixels).unwrap();
    let tileset = Tileset::from_image(img, 2, 2).unwrap();
    assert_eq!(tileset.tile_width, 2);
    assert_eq!(tileset.tile_height, 2);
    assert_eq!(tileset.columns, 1);
    assert_eq!(tileset.rows, 1);
    assert_eq!(tileset.len(), 1);
}

#[test]
fn test_tile_grid() {
    let mut pixels = vec![0u8; 4 * 4 * 4];
    for y in 0..4 {
        for x in 0..4 {
            let idx = (y * 4 + x) * 4;
            let (r, g, b) = match (x / 2, y / 2) {
                (0, 0) => (255, 0, 0),
                (1, 0) => (0, 255, 0),
                (0, 1) => (0, 0, 255),
                (1, 1) => (255, 255, 0),
                _ => (0, 0, 0),
            };
            pixels[idx] = r;
            pixels[idx + 1] = g;
            pixels[idx + 2] = b;
            pixels[idx + 3] = 255;
        }
    }
    let img = RgbaImage::from_raw(4, 4, pixels).unwrap();
    let tileset = Tileset::from_image(img, 2, 2).unwrap();
    assert_eq!(tileset.len(), 4);
    assert_eq!(tileset.columns, 2);
    assert_eq!(tileset.rows, 2);
    assert_eq!(tileset.get_tile(0).unwrap().get_pixel(0, 0), Some([255, 0, 0, 255]));
    assert_eq!(tileset.get_tile(1).unwrap().get_pixel(0, 0), Some([0, 255, 0, 255]));
    assert_eq!(tileset.get_tile(2).unwrap().get_pixel(0, 0), Some([0, 0, 255, 255]));
    assert_eq!(tileset.get_tile(3).unwrap().get_pixel(0, 0), Some([255, 255, 0, 255]));
}

#[test]
fn test_get_tile_at() {
    let pixels = vec![0u8; 4 * 4 * 4];
    let img = RgbaImage::from_raw(4, 4, pixels).unwrap();
    let tileset = Tileset::from_image(img, 2, 2).unwrap();
    assert_eq!(tileset.get_tile_at(0, 0).map(|t| t.index), tileset.get_tile(0).map(|t| t.index));
    assert_eq!(tileset.get_tile_at(1, 0).map(|t| t.index), tileset.get_tile(1).map(|t| t.index));
    assert_eq!(tileset.get_tile_at(0, 1).map(|t| t.index), tileset.get_tile(2).map(|t| t.index));
    assert_eq!(tileset.get_tile_at(1, 1).map(|t| t.index), tileset.get_tile(3).map(|t| t.index));
    assert!(tileset.get_tile_at(2, 0).is_none());
    assert!(tileset.get_tile_at(0, 2).is_none());
}

#[test]
fn test_invalid_dimensions() {
    let pixels = vec![0u8; 4 * 4 * 4];
    let img = RgbaImage::from_raw(4, 4, pixels).unwrap();
    assert!(Tileset::from_image(img.clone(), 0, 2).is_err());
    assert!(Tileset::from_image(img.clone(), 2, 0).is_err());
    assert!(Tileset::from_image(img, 8, 8).is_err());
}

#[test]
fn partial_tiles_are_dropped_and_pixels_copied() {
    let pixels: Vec<u8> = (0..(5 * 3 * 4)).map(|v| v as u8).collect();
    let img = RgbaImage::from_raw(5, 3, pixels.clone()).unwrap();
    assert_eq!((img.width(), img.height()), (5, 3));
    let ts = Tileset::from_image(img, 2, 2).unwrap();
    assert_eq!((ts.columns, ts.rows, ts.len()), (2, 1, 2));
    assert!(!ts.is_empty());
    assert_eq!(ts.texture, pixels);
    let t1 = ts.get_tile(1).unwrap();
    assert_eq!((t1.src_x, t1.src_y), (2, 0));
    assert_eq!(t1.pixels, vec![8, 9, 10, 11, 12, 13, 14, 15, 28, 29, 30, 31, 32, 33, 34, 35]);
    assert_eq!(t1.get_color(1, 1), Some(Color::rgba(32, 33, 34, 35)));
    assert_eq!(t1.get_pixel(2, 0), None);
    assert!(ts.get_tile(2).is_none());
    assert_eq!(ts.iter().len(), 2);
    assert!(matches!(
        Tileset::from_image(RgbaImage::from_raw(1, 1, vec![0; 4]).unwrap(), 2, 1),
        Err(TilesetError::InvalidDimensions(_))
    ));
}

#[test]
fn raw_image_needs_four_bytes_per_pixel() {
    assert!(RgbaImage::from_raw(2, 2, vec![0; 15]).is_none());
    assert!(RgbaImage::from_raw(0, 7, Vec::new()).is_some());
    assert!(RgbaImage::from_raw(70000, 70000, Vec::new()).is_none());
}

#[test]
fn cp437_tiles_follow_the_code_page() {
    let pixels = vec![0u8; 16 * 16 * 4];
    let ts = Tileset::from_image(RgbaImage::from_raw(16, 16, pixels).unwrap(), 1, 1).unwrap();
    assert_eq!(ts.len(), 256);
    assert_eq!(ts.get_cp437_tile('@').unwrap().index, 64);
    assert_eq!(ts.get_cp437_tile('█').unwrap().index, 219);
    assert!(ts.get_cp437_tile('\u{1F600}').is_none());
}
