//! Grid toolkit for turn-based games: symmetric shadowcasting field of view,
//! directions, rectangles, console cells, colours, map grids and dice.
pub mod bsp;
pub mod caves;
pub mod cell;
pub mod color;
pub mod console;
pub mod cp437;
pub mod dice;
pub mod direction;
pub mod drunkard;
pub mod fov;
pub mod fov_laws;
pub mod glyph;
pub mod input;
pub mod point;
pub mod rect;
pub mod rng;
pub mod tileset;

