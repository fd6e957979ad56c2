use vstd::prelude::*;

verus! {

/// One bit of the panel: `Black` is the foreground (bit 0), `White` the
/// background (bit 1).
#[derive(Clone, Copy, PartialEq, Eq, Debug, Structural)]
pub enum Color {
    Black,
    White,
}

/// An ordinal that names no color.
#[derive(Clone, Copy, PartialEq, Eq, Debug, Structural)]
pub struct InvalidColor {
    pub value: u16,
}

/// The color of ordinal `v`, if it names one.
pub open spec fn color_of(v: int) -> Option<Color> {
    if v == 0 {
        Some(Color::Black)
    } else if v == 1 {
        Some(Color::White)
    } else {
        None
    }
}

impl Color {
    /// Converts an ordinal: 0 is `Black`, 1 is `White`, anything else is
    /// rejected.
    pub fn from_u8(value: u8) -> (r: Result<Color, InvalidColor>)
        ensures
            match color_of(value as int) {
                Some(c) => r == Ok::<Color, InvalidColor>(c),
                None => r == Err::<Color, InvalidColor>(InvalidColor { value: value as u16 }),
            },
    {
        Color::from_u16(value as u16)
    }

    /// Converts an ordinal: 0 is `Black`, 1 is `White`, anything else is
    /// rejected.
    pub fn from_u16(value: u16) -> (r: Result<Color, InvalidColor>)
        ensures
            match color_of(value as int) {
                Some(c) => r == Ok::<Color, InvalidColor>(c),
                None => r == Err::<Color, InvalidColor>(InvalidColor { value }),
            },
    {
        match value {
            0 => Ok(Color::Black),
            1 => Ok(Color::White),
            _ => Err(InvalidColor { value }),
        }
    }
}

/// One logical pixel of a drawable source.
#[derive(Clone, Copy, PartialEq, Eq, Debug, Structural)]
pub struct Pixel {
    pub x: u32,
    pub y: u32,
    pub color: Color,
}

} // verus!
