use akjo_os::display::{Position, Region, Size};
use akjo_os::text::{
    CharacterAttributes, ColorCode, ScreenChar, ScrollDirection, TextColor, TextSegment,
};
use akjo_os::text_driver::TextDisplayDriver;

fn blank() -> ScreenChar {
    ScreenChar::new(
        ' ',
        ColorCode::new(TextColor::Black, TextColor::Black),
        CharacterAttributes::new(false, false),
    )
}

fn plain(character: char) -> ScreenChar {
    ScreenChar::new(
        character,
        ColorCode::new(TextColor::White, TextColor::Black),
        CharacterAttributes::new(false, false),
    )
}

fn screen(width: usize, height: usize) -> TextDisplayDriver {
    let mut driver = TextDisplayDriver::new();
    driver.init(Size::new(width, height), Size::new(9, 18));
    driver
}

fn row(driver: &TextDisplayDriver, y: usize) -> String {
    let width = driver.buffer_size().width;
    (0..width).map(|x| driver.cell(y * width + x).character()).collect()
}

fn dirty(driver: &TextDisplayDriver) -> Vec<bool> {
    let size = driver.buffer_size();
    (0..size.width * size.height).map(|i| driver.is_dirty(i)).collect()
}

fn segment(text: &str, x: usize, y: usize, fg: TextColor, bg: TextColor) -> TextSegment {
    TextSegment::new(String::from(text), Position::new(x, y), fg, bg, false, false)
}

#[test]
fn new_driver_has_no_grid() {
    let driver = TextDisplayDriver::new();
    assert_eq!(driver.buffer_size(), Size::new(0, 0));
    assert_eq!(driver.get_cursor_position(), Position::new(0, 0));
    assert!(!driver.is_blinking());
    assert_eq!(driver.map_position(Position::new(3, 4)), Position::new(0, 0));
    assert!(driver.get_dirty_regions().is_empty());
    assert!(driver.get_text_segments().is_empty());
}

#[test]
fn init_gives_a_blank_grid() {
    let driver = screen(4, 3);
    assert_eq!(driver.buffer_size(), Size::new(4, 3));
    for i in 0..12 {
        assert_eq!(driver.cell(i), blank());
        assert!(!driver.is_dirty(i));
    }
    assert_eq!(driver.get_cursor_position(), Position::new(0, 0));
    assert_eq!(driver.map_position(Position::new(3, 2)), Position::new(27, 36));
}

#[test]
fn write_char_puts_a_cell_and_moves_the_cursor() {
    let mut driver = screen(4, 3);
    driver.write_char('A');
    assert_eq!(driver.cell(0), plain('A'));
    assert_eq!(dirty(&driver)[..2], [true, false]);
    assert_eq!(driver.get_cursor_position(), Position::new(1, 0));
    driver.set_text_color(TextColor::Red);
    driver.set_background_color(TextColor::Navy);
    driver.set_underline(true);
    driver.set_strikethrough(true);
    driver.write_char('B');
    assert_eq!(
        driver.cell(1),
        ScreenChar::new(
            'B',
            ColorCode::new(TextColor::Red, TextColor::Navy),
            CharacterAttributes::new(true, true)
        )
    );
    assert_eq!(driver.get_cursor_position(), Position::new(2, 0));
}

#[test]
fn control_characters_move_the_cursor() {
    let mut driver = screen(8, 3);
    driver.write_char('\t');
    assert_eq!(driver.get_cursor_position(), Position::new(4, 0));
    driver.write_char('\n');
    assert_eq!(driver.get_cursor_position(), Position::new(0, 1));
    driver.write_char('x');
    driver.write_char('y');
    driver.write_char('\r');
    assert_eq!(driver.get_cursor_position(), Position::new(0, 1));
    driver.new_line();
    assert_eq!(driver.get_cursor_position(), Position::new(0, 2));
    driver.move_cursor(Position::new(5, 1));
    assert_eq!(driver.get_cursor_position(), Position::new(5, 1));
    assert_eq!(dirty(&driver).iter().filter(|d| **d).count(), 2);
}

#[test]
fn write_string_wraps_at_the_end_of_a_row() {
    let mut driver = screen(4, 3);
    driver.write_string("abcde");
    assert_eq!(row(&driver, 0), "abcd");
    assert_eq!(row(&driver, 1), "e   ");
    assert_eq!(driver.get_cursor_position(), Position::new(1, 1));
    driver.write_line("fg");
    assert_eq!(row(&driver, 1), "efg ");
    assert_eq!(driver.get_cursor_position(), Position::new(0, 2));
}

#[test]
fn writing_past_the_last_row_scrolls_up() {
    let mut driver = screen(4, 3);
    driver.write_string("abcdefghijkl");
    assert_eq!(driver.get_cursor_position(), Position::new(4, 2));
    driver.write_char('m');
    assert_eq!(row(&driver, 0), "efgh");
    assert_eq!(row(&driver, 1), "ijkl");
    assert_eq!(row(&driver, 2), "m   ");
    assert_eq!(driver.cell(9), blank());
    assert_eq!(driver.get_cursor_position(), Position::new(1, 2));
    assert_eq!(dirty(&driver), vec![true; 12]);
}

#[test]
fn writing_below_the_grid_scrolls_until_the_cursor_is_in_it() {
    let mut driver = screen(4, 3);
    driver.write_string("abcdefghijkl");
    driver.move_cursor(Position::new(2, 4));
    driver.write_char('z');
    assert_eq!(row(&driver, 0), "ijkl");
    assert_eq!(row(&driver, 1), "    ");
    assert_eq!(row(&driver, 2), "  z ");
    assert_eq!(driver.get_cursor_position(), Position::new(3, 2));
    driver.move_cursor(Position::new(9, 5));
    driver.write_char('y');
    assert_eq!(row(&driver, 0), "    ");
    assert_eq!(row(&driver, 1), "    ");
    assert_eq!(row(&driver, 2), "y   ");
    assert_eq!(driver.get_cursor_position(), Position::new(1, 2));
}

#[test]
fn a_grid_of_one_row_is_emptied_in_place_of_a_scroll() {
    let mut driver = screen(3, 1);
    driver.write_string("abc");
    assert_eq!(row(&driver, 0), "abc");
    driver.write_char('d');
    assert_eq!(row(&driver, 0), "d  ");
    assert_eq!(driver.get_cursor_position(), Position::new(1, 0));
    driver.move_cursor(Position::new(1, 7));
    driver.write_char('e');
    assert_eq!(row(&driver, 0), "e  ");
    assert_eq!(driver.get_cursor_position(), Position::new(1, 0));
}

#[test]
fn scroll_moves_rows_and_clears_what_comes_in() {
    let mut driver = screen(2, 3);
    driver.write_string("abcdef");
    driver.set_background_color(TextColor::Green);
    let cleared = ScreenChar::new(
        ' ',
        ColorCode::new(TextColor::Green, TextColor::Green),
        CharacterAttributes::new(false, false),
    );
    driver.move_cursor(Position::new(1, 2));
    driver.scroll(0, ScrollDirection::Up);
    assert_eq!(row(&driver, 0), "ab");
    driver.scroll(1, ScrollDirection::Up);
    assert_eq!((row(&driver, 0), row(&driver, 1)), (String::from("cd"), String::from("ef")));
    assert_eq!((driver.cell(4), driver.cell(5)), (cleared, cleared));
    assert_eq!(driver.get_cursor_position(), Position::new(1, 1));
    driver.scroll(2, ScrollDirection::Down);
    assert_eq!(row(&driver, 2), "cd");
    assert_eq!(driver.cell(0), cleared);
    assert_eq!(driver.cell(3), cleared);
    assert_eq!(driver.get_cursor_position(), Position::new(1, 1));
    assert_eq!(dirty(&driver), vec![true; 6]);
    driver.scroll(3, ScrollDirection::Down);
    for i in 0..6 {
        assert_eq!(driver.cell(i), blank());
    }
    assert_eq!(driver.get_cursor_position(), Position::new(0, 0));
}

#[test]
fn fill_and_fill_region() {
    let mut driver = screen(4, 3);
    driver.fill_region(Region::new(Position::new(1, 1), Size::new(2, 2)), '#');
    assert_eq!(row(&driver, 0), "    ");
    assert_eq!(row(&driver, 1), " ## ");
    assert_eq!(row(&driver, 2), " ## ");
    let marks = dirty(&driver);
    assert_eq!(
        marks,
        vec![false, false, false, false, false, true, true, false, false, true, true, false]
    );
    driver.fill_region(Region::new(Position::new(3, 0), Size::new(0, 3)), '!');
    assert_eq!(dirty(&driver), marks);
    driver.fill('.');
    for y in 0..3 {
        assert_eq!(row(&driver, y), "....");
    }
    assert_eq!(dirty(&driver), vec![true; 12]);
    assert_eq!(driver.get_cursor_position(), Position::new(0, 0));
}

#[test]
fn clearing_cells_and_the_buffer() {
    let mut driver = screen(3, 2);
    driver.write_string("abcdef");
    driver.set_background_color(TextColor::Blue);
    driver.clear_cell(1, 1);
    assert_eq!(
        driver.cell(4),
        ScreenChar::new(
            ' ',
            ColorCode::new(TextColor::Blue, TextColor::Blue),
            CharacterAttributes::new(false, false)
        )
    );
    assert_eq!(row(&driver, 1), "d f");
    let mut fresh = screen(3, 2);
    fresh.write_at(plain('q'), Position::new(2, 1));
    assert_eq!(fresh.cell(5), plain('q'));
    assert_eq!(dirty(&fresh), vec![false, false, false, false, false, true]);
    fresh.move_cursor(Position::new(2, 1));
    fresh.clear_buffer();
    assert_eq!(fresh.cell(5), blank());
    assert_eq!(dirty(&fresh), vec![false, false, false, false, false, true]);
    assert_eq!(fresh.get_cursor_position(), Position::new(0, 0));
    fresh.init_redraw();
    assert_eq!(dirty(&fresh), vec![true; 6]);
}

#[test]
fn blink_toggles() {
    let mut driver = screen(2, 2);
    driver.blink();
    assert!(driver.is_blinking());
    driver.blink();
    assert!(!driver.is_blinking());
}

#[test]
fn positions_and_regions_are_validated() {
    let driver = screen(4, 3);
    assert_eq!(driver.validate_position(Position::new(3, 2)), (true, true));
    assert_eq!(driver.validate_position(Position::new(4, 2)), (false, true));
    assert_eq!(driver.validate_position(Position::new(3, 3)), (true, false));
    assert_eq!(driver.validate_position(Position::new(9, 9)), (false, false));
    assert!(driver.validate_region(Region::new(Position::new(0, 0), Size::new(3, 2))));
    assert!(!driver.validate_region(Region::new(Position::new(0, 0), Size::new(4, 2))));
    assert!(!driver.validate_region(Region::new(Position::new(0, 0), Size::new(3, 3))));
    assert!(!driver.validate_region(Region::new(Position::new(4, 0), Size::new(0, 0))));
}

#[test]
fn dirty_regions_are_the_boxes_of_joined_marked_cells() {
    let mut driver = screen(4, 3);
    driver.write_at(plain('a'), Position::new(0, 0));
    driver.write_at(plain('b'), Position::new(1, 0));
    driver.write_at(plain('c'), Position::new(3, 2));
    assert_eq!(
        driver.get_dirty_regions(),
        vec![
            Region::new(Position::new(0, 0), Size::new(2, 1)),
            Region::new(Position::new(3, 2), Size::new(1, 1)),
        ]
    );
    driver.write_at(plain('d'), Position::new(1, 1));
    driver.write_at(plain('e'), Position::new(2, 1));
    assert_eq!(
        driver.get_dirty_regions(),
        vec![
            Region::new(Position::new(0, 0), Size::new(3, 2)),
            Region::new(Position::new(3, 2), Size::new(1, 1)),
        ]
    );
    driver.write_at(plain('f'), Position::new(2, 2));
    assert_eq!(
        driver.get_dirty_regions(),
        vec![Region::new(Position::new(0, 0), Size::new(4, 3))]
    );
}

#[test]
fn dirty_regions_do_not_join_over_a_corner() {
    let mut driver = screen(3, 3);
    driver.write_at(plain('a'), Position::new(1, 0));
    driver.write_at(plain('b'), Position::new(0, 1));
    driver.write_at(plain('c'), Position::new(2, 2));
    assert_eq!(
        driver.get_dirty_regions(),
        vec![
            Region::new(Position::new(1, 0), Size::new(1, 1)),
            Region::new(Position::new(0, 1), Size::new(1, 1)),
            Region::new(Position::new(2, 2), Size::new(1, 1)),
        ]
    );
}

#[test]
fn text_segments_follow_the_rows_of_a_region() {
    let mut driver = screen(4, 3);
    driver.write_string("ab");
    assert_eq!(
        driver.get_text_segments(),
        vec![segment("ab", 0, 0, TextColor::White, TextColor::Black)]
    );
    driver.write_string("cdef");
    assert_eq!(
        driver.get_text_segments(),
        vec![
            segment("abcd", 0, 0, TextColor::White, TextColor::Black),
            segment("ef  ", 0, 1, TextColor::White, TextColor::Black),
        ]
    );
}

#[test]
fn text_segments_split_only_after_black_on_black() {
    let mut driver = screen(6, 1);
    driver.write_string("ab");
    driver.set_text_color(TextColor::Red);
    driver.write_char('c');
    assert_eq!(
        driver.get_text_segments(),
        vec![segment("abc", 0, 0, TextColor::White, TextColor::Black)]
    );
    let mut dark = screen(6, 1);
    dark.set_text_color(TextColor::Black);
    dark.write_string("xy");
    dark.set_text_color(TextColor::White);
    dark.set_underline(true);
    dark.write_char('z');
    assert_eq!(
        dark.get_text_segments(),
        vec![
            segment("xy", 0, 0, TextColor::Black, TextColor::Black),
            TextSegment::new(
                String::from("z"),
                Position::new(2, 0),
                TextColor::White,
                TextColor::Black,
                true,
                false
            ),
        ]
    );
}

#[test]
fn text_segments_in_given_regions() {
    let mut driver = screen(4, 2);
    driver.write_string("abcdefgh");
    let regions = vec![
        Region::new(Position::new(1, 0), Size::new(2, 2)),
        Region::new(Position::new(3, 1), Size::new(1, 1)),
        Region::new(Position::new(0, 0), Size::new(0, 2)),
    ];
    assert_eq!(
        driver.text_segments_in(&regions),
        vec![
            segment("bc", 1, 0, TextColor::White, TextColor::Black),
            segment("fg", 1, 1, TextColor::White, TextColor::Black),
            segment("h", 3, 1, TextColor::White, TextColor::Black),
        ]
    );
    assert!(driver.text_segments_in(&vec![]).is_empty());
}
