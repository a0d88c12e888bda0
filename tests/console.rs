use runeforge::cell::Cell;
use runeforge::color::Color;
use runeforge::console::{block_cells, box_glyphs, hline_cells, string_cells, vline_cells, within, Console};
use runeforge::point::Point;

struct TestConsole {
    width: u32,
    height: u32,
    cells: Vec<Cell>,
}

impl TestConsole {
    fn new(width: u32, height: u32) -> Self {
        Self { width, height, cells: vec![Cell::empty(); (width * height) as usize] }
    }
}

impl Console for TestConsole {
    fn width(&self) -> u32 {
        self.width
    }

    fn height(&self) -> u32 {
        self.height
    }

    fn set(&mut self, pos: Point, cell: Cell) -> bool {
        if !self.in_bounds(pos) {
            return false;
        }
        let idx = (pos.y as u32 * self.width + pos.x as u32) as usize;
        self.cells[idx] = cell;
        true
    }

    fn get(&self, pos: Point) -> Option<Cell> {
        if !self.in_bounds(pos) {
            return None;
        }
        let idx = (pos.y as u32 * self.width + pos.x as u32) as usize;
        self.cells.get(idx).copied()
    }

    fn clear(&mut self) {
        for cell in &mut self.cells {
            *cell = Cell::empty();
        }
    }

    fn present(&mut self) {}
}

fn red() -> Color {
    Color::rgb(255, 0, 0)
}

fn blue() -> Color {
    Color::rgb(0, 0, 255)
}

fn yellow() -> Color {
    Color::rgb(255, 255, 0)
}

fn cell_creation() {
    let cell = Cell::new('@', red(), blue());
    assert_eq!(cell.ch, '@');
    assert_eq!(cell.fg, red());
    assert_eq!(cell.bg, blue());
}

fn basic_ops() {
    let mut console = TestConsole::new(10, 10);
    assert_eq!(console.width(), 10);
    assert_eq!(console.height(), 10);
    let pos = Point::new(5, 5);
    let cell = Cell::new('@', yellow(), Color::black());
    assert!(console.set(pos, cell));
    assert_eq!(console.get(pos), Some(cell));
}

fn bounds_checking() {
    let console = TestConsole::new(10, 10);
    assert!(console.in_bounds(Point::new(0, 0)));
    assert!(console.in_bounds(Point::new(9, 9)));
    assert!(!console.in_bounds(Point::new(-1, 0)));
    assert!(!console.in_bounds(Point::new(0, -1)));
    assert!(!console.in_bounds(Point::new(10, 0)));
    assert!(!console.in_bounds(Point::new(0, 10)));
}

fn draw_string() {
    let mut console = TestConsole::new(20, 10);
    let count = console.draw_string(Point::new(5, 5), "Hello", Color::white(), Color::black());
    assert_eq!(count, 5);
    assert_eq!(console.get(Point::new(5, 5)).unwrap().ch, 'H');
    assert_eq!(console.get(Point::new(9, 5)).unwrap().ch, 'o');
}

fn draw_box() {
    let mut console = TestConsole::new(20, 10);
    console.draw_box(5, 5, 10, 5, Color::white(), Color::black(), false);
    assert_eq!(console.get(Point::new(5, 5)).unwrap().ch, '┌');
    assert_eq!(console.get(Point::new(14, 5)).unwrap().ch, '┐');
    assert_eq!(console.get(Point::new(5, 9)).unwrap().ch, '└');
    assert_eq!(console.get(Point::new(14, 9)).unwrap().ch, '┘');
    assert_eq!(console.get(Point::new(6, 5)).unwrap().ch, '─');
    assert_eq!(console.get(Point::new(5, 6)).unwrap().ch, '│');
}

fn clear() {
    let mut console = TestConsole::new(10, 10);
    console.draw_string(Point::new(5, 5), "Test", Color::white(), Color::black());
    console.clear();
    assert_eq!(console.get(Point::new(5, 5)).unwrap(), Cell::empty());
}

#[test]
fn lib_test_cell_creation() {
    cell_creation();
}

#[test]
fn lib_test_console_basic_ops() {
    basic_ops();
}

#[test]
fn lib_test_console_bounds_checking() {
    bounds_checking();
}

#[test]
fn lib_test_console_draw_string() {
    draw_string();
}

#[test]
fn lib_test_console_draw_box() {
    draw_box();
}

#[test]
fn lib_test_console_clear() {
    clear();
}

#[test]
fn console_test_cell_creation() {
    cell_creation();
}

#[test]
fn console_test_console_basic_ops() {
    basic_ops();
}

#[test]
fn console_test_console_bounds_checking() {
    bounds_checking();
}

#[test]
fn console_test_console_draw_string() {
    draw_string();
}

#[test]
fn console_test_console_draw_box() {
    draw_box();
}

#[test]
fn console_test_console_clear() {
    clear();
}

#[test]
fn draw_string_stops_at_the_right_edge() {
    let mut console = TestConsole::new(8, 2);
    assert_eq!(console.draw_string(Point::new(5, 0), "Hello", red(), blue()), 3);
    assert_eq!(console.get(Point::new(7, 0)).unwrap().ch, 'l');
    assert_eq!(console.draw_string(Point::new(0, 5), "Hi", red(), blue()), 0);
}

#[test]
fn lines_rects_and_setters() {
    let mut console = TestConsole::new(6, 6);
    assert_eq!(console.draw_hline(1, 4, 0, '-', red(), blue()), 5);
    assert_eq!(console.draw_vline(5, -2, 2, '|', red(), blue()), 3);
    assert_eq!(console.fill_rect(4, 4, 3, 3, Cell::from_char('#')), 4);
    assert!(console.set_char(Point::new(0, 0), 'x'));
    assert!(console.set_fg(Point::new(0, 0), red()));
    assert!(console.set_bg(Point::new(0, 0), blue()));
    assert_eq!(console.get(Point::new(0, 0)), Some(Cell::new('x', red(), blue())));
    assert!(!console.set_char(Point::new(6, 0), 'x'));
    console.clear_with_color(red());
    assert_eq!(console.get(Point::new(3, 3)), Some(Cell::new(' ', Color::white(), red())));
    assert_eq!(console.size(), (6, 6));
}

#[test]
fn double_box_glyphs_and_small_boxes() {
    assert_eq!(box_glyphs(true), ('╔', '╗', '╚', '╝', '═', '║'));
    let mut console = TestConsole::new(5, 5);
    console.draw_box(0, 0, 1, 3, red(), blue(), true);
    assert_eq!(console.get(Point::new(0, 0)), Some(Cell::empty()));
    console.draw_box(0, 0, 3, 3, red(), blue(), true);
    assert_eq!(console.get(Point::new(2, 2)).unwrap().ch, '╝');
    assert!(within(Point::new(4, 4), 5, 5));
    assert!(!within(Point::new(5, 4), 5, 5));
}

#[test]
fn cell_builders() {
    let c = Cell::from_char('a').with_char('b').with_fg(red()).with_bg(blue());
    assert_eq!(c, Cell::new('b', red(), blue()));
    assert_eq!(Cell::from_char('z'), Cell::new('z', Color::white(), Color::black()));
    assert_eq!(Cell::empty().ch, ' ');
}

#[test]
fn box_outline_cells_in_drawing_order() {
    use_box_outline();
}

fn use_box_outline() {
    let cells = runeforge::console::box_outline(0, 0, 3, 3, false);
    assert_eq!(
        cells,
        vec![
            (Point::new(0, 0), '┌'),
            (Point::new(2, 0), '┐'),
            (Point::new(0, 2), '└'),
            (Point::new(2, 2), '┘'),
            (Point::new(1, 0), '─'),
            (Point::new(1, 2), '─'),
            (Point::new(0, 1), '│'),
            (Point::new(2, 1), '│'),
        ]
    );
    let narrow = runeforge::console::box_outline(5, 5, 2, 4, true);
    assert_eq!(narrow[4], (Point::new(5, 5), '═'));
    assert_eq!(narrow[5], (Point::new(6, 5), '═'));
    assert!(runeforge::console::box_outline(0, 0, 1, 5, false).is_empty());
    assert!(runeforge::console::box_outline(i32::MAX, 0, 2, 2, false).is_empty());
}

#[test]
fn drawing_cell_lists() {
    assert_eq!(
        string_cells(Point::new(3, 1), "Hello", 6),
        vec![(Point::new(3, 1), 'H'), (Point::new(4, 1), 'e'), (Point::new(5, 1), 'l')]
    );
    assert!(string_cells(Point::new(9, 0), "Hi", 6).is_empty());
    assert_eq!(string_cells(Point::new(-2, 0), "abc", 6).len(), 3);
    assert_eq!(hline_cells(2, 3, 1, '-'), vec![(Point::new(1, 2), '-'), (Point::new(2, 2), '-'), (Point::new(3, 2), '-')]);
    assert_eq!(vline_cells(0, 1, 1, '|'), vec![(Point::new(0, 1), '|')]);
    assert_eq!(
        block_cells(1, 1, 2, 2),
        vec![Point::new(1, 1), Point::new(2, 1), Point::new(1, 2), Point::new(2, 2)]
    );
    assert_eq!(block_cells(i32::MAX, 0, 3, 2).len(), 2);
    assert!(block_cells(0, 0, 0, 4).is_empty());
}
