//! Display styles of the character grid and the ANSI escape sequences that
//! select them.

use vstd::prelude::*;
use vstd::string::StringExecFns;

verus! {

/// Foreground colour of a character cell.
#[derive(Clone, Copy, PartialEq, Eq, Structural, Debug)]
pub enum Color {
    Reset,
    Black,
    Red,
    Green,
    Yellow,
    Blue,
    Purple,
    Cyan,
    White,
}

/// Text decoration of a character cell.
#[derive(Clone, Copy, PartialEq, Eq, Structural, Debug)]
pub enum Decor {
    Plain,
    Bold,
    Underline,
    HighIntensity,
    BoldHighIntensity,
}

/// A cell's look: the glyph, its colour and its decoration.
pub type Style = (char, Color, Decor);

/// The escape character that starts every control sequence.
pub const ESC: char = '\x1b';

/// The digit that selects a colour within an SGR colour code (Black..White
/// are 0..7). `Reset` has its own sequence and no digit.
pub open spec fn color_digit(c: Color) -> char {
    match c {
        Color::Reset => '0',
        Color::Black => '0',
        Color::Red => '1',
        Color::Green => '2',
        Color::Yellow => '3',
        Color::Blue => '4',
        Color::Purple => '5',
        Color::Cyan => '6',
        Color::White => '7',
    }
}

/// Whether a decoration asks for the high-intensity colour range.
pub open spec fn is_high_intensity(d: Decor) -> bool {
    d == Decor::HighIntensity || d == Decor::BoldHighIntensity
}

/// The first digit of the SGR colour code: 9 for high intensity, else 3.
pub open spec fn intensity_digit(d: Decor) -> char {
    if is_high_intensity(d) {
        '9'
    } else {
        '3'
    }
}

/// The SGR attribute code of a decoration: 0 normal, 1 bold, 4 underline.
pub open spec fn decor_digit(d: Decor) -> char {
    match d {
        Decor::Plain => '0',
        Decor::Bold => '1',
        Decor::Underline => '4',
        Decor::HighIntensity => '0',
        Decor::BoldHighIntensity => '1',
    }
}

/// The escape sequence that switches the terminal to a colour and
/// decoration: `ESC[0m` for the reset colour, otherwise
/// `ESC[{decor};{intensity}{colour}m`.
pub open spec fn style_escape(color: Color, decor: Decor) -> Seq<char> {
    if color == Color::Reset {
        seq![ESC, '[', '0', 'm']
    } else {
        seq![ESC, '[', decor_digit(decor), ';', intensity_digit(decor), color_digit(color), 'm']
    }
}

/// Relies on `String::push`: the character is appended at the end.
#[verifier::external_body]
pub(crate) fn push_char(s: &mut String, c: char)
    ensures
        final(s)@ == old(s)@.push(c),
{
    s.push(c);
}

fn color_char(c: Color) -> (r: char)
    ensures
        r == color_digit(c),
{
    match c {
        Color::Reset => '0',
        Color::Black => '0',
        Color::Red => '1',
        Color::Green => '2',
        Color::Yellow => '3',
        Color::Blue => '4',
        Color::Purple => '5',
        Color::Cyan => '6',
        Color::White => '7',
    }
}

fn decor_char(d: Decor) -> (r: char)
    ensures
        r == decor_digit(d),
{
    match d {
        Decor::Plain => '0',
        Decor::Bold => '1',
        Decor::Underline => '4',
        Decor::HighIntensity => '0',
        Decor::BoldHighIntensity => '1',
    }
}

/// The escape sequence that selects the colour and decoration of `style`
/// (its glyph plays no part).
pub fn get_style_escape(style: Style) -> (r: String)
    ensures
        r@ == style_escape(style.1, style.2),
{
    let mut s = String::new();
    push_char(&mut s, ESC);
    push_char(&mut s, '[');
    if style.1 == Color::Reset {
        push_char(&mut s, '0');
        push_char(&mut s, 'm');
        assert(s@ =~= style_escape(style.1, style.2));
        return s;
    }
    let intensity = if style.2 == Decor::HighIntensity || style.2 == Decor::BoldHighIntensity {
        '9'
    } else {
        '3'
    };
    push_char(&mut s, decor_char(style.2));
    push_char(&mut s, ';');
    push_char(&mut s, intensity);
    push_char(&mut s, color_char(style.1));
    push_char(&mut s, 'm');
    assert(s@ =~= style_escape(style.1, style.2));
    s
}

} // verus!
