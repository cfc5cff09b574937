use termrender::style::{get_style_escape, Color, Decor};

#[test]
fn reset_color_has_its_own_sequence() {
    assert_eq!(get_style_escape((' ', Color::Reset, Decor::Plain)), "\x1b[0m");
    assert_eq!(get_style_escape(('x', Color::Reset, Decor::BoldHighIntensity)), "\x1b[0m");
}

#[test]
fn colors_map_to_digits_zero_to_seven() {
    let colors = [
        Color::Black,
        Color::Red,
        Color::Green,
        Color::Yellow,
        Color::Blue,
        Color::Purple,
        Color::Cyan,
        Color::White,
    ];
    for (digit, color) in colors.iter().enumerate() {
        assert_eq!(get_style_escape(('#', *color, Decor::Plain)), format!("\x1b[0;3{}m", digit));
    }
}

#[test]
fn decorations_select_attribute_and_intensity() {
    assert_eq!(get_style_escape(('#', Color::Red, Decor::Plain)), "\x1b[0;31m");
    assert_eq!(get_style_escape(('#', Color::Red, Decor::Bold)), "\x1b[1;31m");
    assert_eq!(get_style_escape(('#', Color::Red, Decor::Underline)), "\x1b[4;31m");
    assert_eq!(get_style_escape(('#', Color::Red, Decor::HighIntensity)), "\x1b[0;91m");
    assert_eq!(get_style_escape(('#', Color::Red, Decor::BoldHighIntensity)), "\x1b[1;91m");
}

#[test]
fn glyph_plays_no_part_in_the_escape() {
    assert_eq!(
        get_style_escape(('a', Color::Blue, Decor::BoldHighIntensity)),
        get_style_escape(('z', Color::Blue, Decor::BoldHighIntensity))
    );
    assert_eq!(get_style_escape(('a', Color::Blue, Decor::BoldHighIntensity)), "\x1b[1;94m");
}
