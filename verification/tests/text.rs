use akjo_os::display::{
    pixel_offset, set_pixel_in_at, Color, DisplayType, PixelFormat, Position, Region, Size,
};
use akjo_os::text::{
    CharacterAttributes, ColorCode, ScreenChar, ScrollDirection, TextColor, TextSegment,
};

#[test]
fn text_color_numbers() {
    assert_eq!(TextColor::from_u8(0), Some(TextColor::Black));
    assert_eq!(TextColor::from_u8(1), Some(TextColor::Maroon));
    assert_eq!(TextColor::from_u8(7), Some(TextColor::Silver));
    assert_eq!(TextColor::from_u8(8), Some(TextColor::Gray));
    assert_eq!(TextColor::from_u8(9), Some(TextColor::Red));
    assert_eq!(TextColor::from_u8(12), Some(TextColor::Blue));
    assert_eq!(TextColor::from_u8(15), Some(TextColor::White));
    assert_eq!(TextColor::from_u8(16), None);
    assert_eq!(TextColor::from_u8(255), None);
    for n in 0..16u8 {
        assert_eq!(TextColor::from_u8(n).unwrap().as_u8(), n);
    }
}

#[test]
fn color_code_packs_two_colors() {
    let code = ColorCode::new(TextColor::White, TextColor::Blue);
    assert_eq!(code.foreground(), TextColor::White);
    assert_eq!(code.background(), TextColor::Blue);
    let inverted = code.invert();
    assert_eq!(inverted.foreground(), TextColor::Blue);
    assert_eq!(inverted.background(), TextColor::White);
    assert_eq!(inverted, ColorCode::new(TextColor::Blue, TextColor::White));
    assert_eq!(inverted.invert(), code);
    for f in 0..16u8 {
        for b in 0..16u8 {
            let fg = TextColor::from_u8(f).unwrap();
            let bg = TextColor::from_u8(b).unwrap();
            let code = ColorCode::new(fg, bg);
            assert_eq!((code.foreground(), code.background()), (fg, bg));
        }
    }
}

#[test]
fn character_attributes_pack_two_marks() {
    for underline in [false, true] {
        for strikethrough in [false, true] {
            let attributes = CharacterAttributes::new(underline, strikethrough);
            assert_eq!(attributes.underline(), underline);
            assert_eq!(attributes.strikethrough(), strikethrough);
        }
    }
    assert_ne!(CharacterAttributes::new(true, false), CharacterAttributes::new(false, true));
}

#[test]
fn screen_char_gives_back_its_parts() {
    let color = ColorCode::new(TextColor::Yellow, TextColor::Navy);
    let attributes = CharacterAttributes::new(true, false);
    for character in ['A', ' ', '\0', '~', '\u{ff}'] {
        let cell = ScreenChar::new(character, color, attributes);
        assert_eq!(cell.character(), character);
        assert_eq!(cell.color(), color);
        assert_eq!(cell.attributes(), attributes);
    }
}

#[test]
fn screen_char_of_a_wide_code_point_spills_into_the_colors() {
    let black = ColorCode::new(TextColor::Black, TextColor::Black);
    let cell = ScreenChar::new('\u{20ac}', black, CharacterAttributes::new(false, false));
    assert_eq!(cell.character(), '\u{ac}');
    assert_eq!(cell.color(), ColorCode::new(TextColor::Black, TextColor::Green));
    assert_eq!(cell.attributes(), CharacterAttributes::new(false, false));
    let cell = ScreenChar::new('\u{1f600}', black, CharacterAttributes::new(false, false));
    assert_eq!(cell.character(), '\0');
    assert_eq!(cell.color(), ColorCode::new(TextColor::Teal, TextColor::White));
    assert_eq!(cell.attributes(), CharacterAttributes::new(true, false));
}

#[test]
fn text_segment_holds_what_it_is_given() {
    let segment = TextSegment::new(
        String::from("hello"),
        Position::new(3, 4),
        TextColor::Lime,
        TextColor::Black,
        true,
        false,
    );
    assert_eq!(segment.text, "hello");
    assert_eq!(segment.text_position, Position { x: 3, y: 4 });
    assert_eq!(segment.text_color, TextColor::Lime);
    assert_eq!(segment.background_color, TextColor::Black);
    assert!(segment.underline);
    assert!(!segment.strikethrough);
    assert_ne!(ScrollDirection::Up, ScrollDirection::Down);
}

#[test]
fn plain_display_values() {
    assert_eq!(Position::new(1, 2), Position { x: 1, y: 2 });
    assert_eq!(Size::new(3, 4), Size { width: 3, height: 4 });
    assert_eq!(
        Region::new(Position::new(1, 2), Size::new(3, 4)),
        Region { position: Position { x: 1, y: 2 }, size: Size { width: 3, height: 4 } }
    );
    assert_eq!(Color::new(1, 2, 3), Color { red: 1, green: 2, blue: 3 });
    assert_ne!(DisplayType::Simple, DisplayType::Buffered);
}

#[test]
fn pixel_offset_counts_lines_then_pixels() {
    assert_eq!(pixel_offset(Position::new(0, 0), 1280, 4), 0);
    assert_eq!(pixel_offset(Position::new(5, 0), 1280, 4), 20);
    assert_eq!(pixel_offset(Position::new(5, 2), 1280, 4), (2 * 1280 + 5) * 4);
    assert_eq!(pixel_offset(Position::new(7, 3), 10, 3), 111);
    assert_eq!(pixel_offset(Position::new(7, 3), 10, 0), 0);
}

#[test]
fn set_pixel_writes_the_bytes_of_the_format() {
    let color = Color::new(10, 20, 30);
    let mut buffer = vec![0xeeu8; 12];
    set_pixel_in_at(&mut buffer, PixelFormat::Rgb, 4, 4, color);
    assert_eq!(buffer, vec![0xee, 0xee, 0xee, 0xee, 10, 20, 30, 0xee, 0xee, 0xee, 0xee, 0xee]);
    let mut buffer = vec![0xeeu8; 12];
    set_pixel_in_at(&mut buffer, PixelFormat::Bgr, 3, 9, color);
    assert_eq!(buffer, vec![0xee, 0xee, 0xee, 0xee, 0xee, 0xee, 0xee, 0xee, 0xee, 30, 20, 10]);
    let mut buffer = vec![0xeeu8; 4];
    set_pixel_in_at(&mut buffer, PixelFormat::U8, 1, 2, color);
    assert_eq!(buffer, vec![0xee, 0xee, 19, 0xee]);
    let mut buffer = vec![0u8; 2];
    set_pixel_in_at(&mut buffer, PixelFormat::U8, 2, 0, Color::new(255, 255, 255));
    assert_eq!(buffer, vec![255, 0]);
    set_pixel_in_at(&mut buffer, PixelFormat::U8, 1, 1, Color::new(200, 100, 50));
    assert_eq!(buffer, vec![255, 115]);
}
