use vstd::prelude::*;

verus! {

/// The colours that tiles are drawn in.
#[derive(Clone, Copy, Debug, PartialEq, Eq, Structural)]
pub enum Color {
    Black,
    Gray,
    Yellow,
    LightYellow,
    Red,
    LightRed,
    Magenta,
    LightMagenta,
    Cyan,
    LightCyan,
    Blue,
    LightBlue,
    Green,
    Rgb(u8, u8, u8),
}

/// Background colour of a tile of value `v`.
pub open spec fn background_of(v: u32) -> Color {
    if v == 2 {
        Color::Rgb(238, 228, 218)
    } else if v == 4 {
        Color::Rgb(237, 224, 180)
    } else if v == 8 {
        Color::Rgb(242, 177, 121)
    } else if v == 16 {
        Color::Rgb(245, 149, 99)
    } else if v == 32 {
        Color::Rgb(246, 124, 95)
    } else if v == 64 {
        Color::Rgb(246, 94, 59)
    } else if v == 128 {
        Color::Rgb(237, 207, 114)
    } else if v == 256 {
        Color::Rgb(237, 204, 65)
    } else if v == 512 {
        Color::Rgb(231, 170, 40)
    } else if v == 1024 {
        Color::Rgb(214, 166, 0)
    } else if v == 2048 {
        Color::Rgb(215, 149, 43)
    } else {
        Color::Black
    }
}

/// Colour of the number on a tile of value `v`.
pub open spec fn number_color_of(v: u32) -> Color {
    if v == 2 {
        Color::Yellow
    } else if v == 4 {
        Color::LightYellow
    } else if v == 8 {
        Color::LightRed
    } else if v == 16 {
        Color::Red
    } else if v == 32 {
        Color::LightMagenta
    } else if v == 64 {
        Color::Magenta
    } else if v == 128 {
        Color::LightCyan
    } else if v == 256 {
        Color::Cyan
    } else if v == 512 {
        Color::LightBlue
    } else if v == 1024 {
        Color::Blue
    } else if v == 2048 {
        Color::Green
    } else {
        Color::Gray
    }
}

/// Background colour of a tile of value `value`: a shade per tile value up to `2048`,
/// black for anything else.
pub fn get_background_color(value: u32) -> (r: Color)
    ensures
        r == background_of(value),
{
    match value {
        2 => Color::Rgb(238, 228, 218),
        4 => Color::Rgb(237, 224, 180),
        8 => Color::Rgb(242, 177, 121),
        16 => Color::Rgb(245, 149, 99),
        32 => Color::Rgb(246, 124, 95),
        64 => Color::Rgb(246, 94, 59),
        128 => Color::Rgb(237, 207, 114),
        256 => Color::Rgb(237, 204, 65),
        512 => Color::Rgb(231, 170, 40),
        1024 => Color::Rgb(214, 166, 0),
        2048 => Color::Rgb(215, 149, 43),
        _ => Color::Black,
    }
}

/// Colour of the number drawn on a tile of value `value`; gray for anything but a tile
/// value up to `2048`.
pub fn get_number_color(value: u32) -> (r: Color)
    ensures
        r == number_color_of(value),
{
    match value {
        2 => Color::Yellow,
        4 => Color::LightYellow,
        8 => Color::LightRed,
        16 => Color::Red,
        32 => Color::LightMagenta,
        64 => Color::Magenta,
        128 => Color::LightCyan,
        256 => Color::Cyan,
        512 => Color::LightBlue,
        1024 => Color::Blue,
        2048 => Color::Green,
        _ => Color::Gray,
    }
}

/// The character of decimal digit `d`.
pub open spec fn digit_char(d: nat) -> char {
    seq!['0', '1', '2', '3', '4', '5', '6', '7', '8', '9'][d as int]
}

/// The decimal digits of `n`, most significant first, without leading zeros.
pub open spec fn decimal(n: nat) -> Seq<char>
    decreases n,
{
    if n < 10 {
        seq![digit_char(n)]
    } else {
        decimal(n / 10).push(digit_char(n % 10))
    }
}

/// Relies on `u32`'s `ToString`, which formats through `Display`: the decimal digits of
/// `v`, with no sign and no leading zeros.
#[verifier::external_body]
fn decimal_string(v: u32) -> (r: String)
    ensures
        r@ == decimal(v as nat),
{
    v.to_string()
}

/// The five rows of the large glyph drawn on a tile of value `v`: a drawn figure for `2`,
/// `4` and `8`, else the decimal number followed by four empty rows.
pub open spec fn big_digit_rows(v: u32) -> Seq<Seq<char>> {
    if v == 2 {
        seq![" █████ "@, "     █ "@, " █████ "@, " █     "@, " █████ "@]
    } else if v == 4 {
        seq![" █   █ "@, " █   █ "@, " █████ "@, "     █ "@, "     █ "@]
    } else if v == 8 {
        seq![" █████ "@, " █   █ "@, " █████ "@, " █   █ "@, " █████ "@]
    } else {
        seq![decimal(v as nat), ""@, ""@, ""@, ""@]
    }
}

/// The five rows of the large glyph for a tile of value `value`.
pub fn get_big_digit(value: u32) -> (r: Vec<String>)
    ensures
        r@.len() == 5,
        forall|i: int| 0 <= i < 5 ==> #[trigger] r@[i]@ == big_digit_rows(value)[i],
{
    broadcast use vstd::string::group_string_axioms;
    match value {
        2 => vec![
            " █████ ".to_string(),
            "     █ ".to_string(),
            " █████ ".to_string(),
            " █     ".to_string(),
            " █████ ".to_string(),
        ],
        4 => vec![
            " █   █ ".to_string(),
            " █   █ ".to_string(),
            " █████ ".to_string(),
            "     █ ".to_string(),
            "     █ ".to_string(),
        ],
        8 => vec![
            " █████ ".to_string(),
            " █   █ ".to_string(),
            " █████ ".to_string(),
            " █   █ ".to_string(),
            " █████ ".to_string(),
        ],
        _ => vec![
            decimal_string(value),
            "".to_string(),
            "".to_string(),
            "".to_string(),
            "".to_string(),
        ],
    }
}

} // verus!
