//! Colors and their hexadecimal notation.

use vstd::prelude::*;

verus! {

/// A color of eight bits for each of red, green, blue and opacity.
#[derive(Clone, Copy, Debug, PartialEq, Eq, Hash, Structural)]
pub struct RgbaColor {
    /// Red.
    pub r: u8,
    /// Green.
    pub g: u8,
    /// Blue.
    pub b: u8,
    /// Opacity: 255 is opaque.
    pub a: u8,
    /// Whether the color stands in for a notation that could not be read.
    pub healed: bool,
}

/// The reason why a text is no color: it is not made of three, four, six or
/// eight hexadecimal digits.
#[derive(Clone, Copy, Debug, PartialEq, Eq, Hash, Structural)]
pub struct ParseColorError;

/// The value of a hexadecimal digit, in either case.
pub open spec fn spec_hex_digit(c: char) -> Option<u8> {
    if '0' <= c && c <= '9' {
        Some((c as u32 - '0' as u32) as u8)
    } else if 'a' <= c && c <= 'f' {
        Some((c as u32 - 'a' as u32 + 10) as u8)
    } else if 'A' <= c && c <= 'F' {
        Some((c as u32 - 'A' as u32 + 10) as u8)
    } else {
        None
    }
}

/// Whether every character is a hexadecimal digit.
pub open spec fn all_hex_digits(s: Seq<char>) -> bool {
    forall|i: int| 0 <= i < s.len() ==> (#[trigger] spec_hex_digit(s[i])) is Some
}

/// The component that one digit of the short notation stands for: the digit
/// written twice.
pub open spec fn short_component(c: char) -> u8 {
    (17 * spec_hex_digit(c).unwrap()) as u8
}

/// The component that two digits of the long notation stand for.
pub open spec fn long_component(high: char, low: char) -> u8 {
    (16 * spec_hex_digit(high).unwrap() + spec_hex_digit(low).unwrap()) as u8
}

/// The color that a hexadecimal notation stands for. Three or four digits give
/// one digit to each component, six or eight give two; without digits for
/// the opacity the color is opaque.
pub open spec fn spec_parse_color(s: Seq<char>) -> Option<RgbaColor> {
    if !all_hex_digits(s) {
        None
    } else if s.len() == 3 || s.len() == 4 {
        Some(
            RgbaColor {
                r: short_component(s[0]),
                g: short_component(s[1]),
                b: short_component(s[2]),
                a: if s.len() == 4 {
                    short_component(s[3])
                } else {
                    255
                },
                healed: false,
            },
        )
    } else if s.len() == 6 || s.len() == 8 {
        Some(
            RgbaColor {
                r: long_component(s[0], s[1]),
                g: long_component(s[2], s[3]),
                b: long_component(s[4], s[5]),
                a: if s.len() == 8 {
                    long_component(s[6], s[7])
                } else {
                    255
                },
                healed: false,
            },
        )
    } else {
        None
    }
}

/// The value of a hexadecimal digit, in either case.
pub fn hex_digit(c: char) -> (digit: Option<u8>)
    ensures
        digit == spec_hex_digit(c),
        digit is Some ==> digit.unwrap() < 16,
{
    if '0' <= c && c <= '9' {
        Some((c as u32 - '0' as u32) as u8)
    } else if 'a' <= c && c <= 'f' {
        Some((c as u32 - 'a' as u32 + 10) as u8)
    } else if 'A' <= c && c <= 'F' {
        Some((c as u32 - 'A' as u32 + 10) as u8)
    } else {
        None
    }
}

impl RgbaColor {
    /// The color that takes the place of an unreadable notation: opaque black.
    pub open spec fn spec_black() -> RgbaColor {
        RgbaColor { r: 0, g: 0, b: 0, a: 255, healed: true }
    }

    /// Create a color from its components.
    pub fn new(r: u8, g: u8, b: u8, a: u8) -> (color: RgbaColor)
        ensures
            color == (RgbaColor { r, g, b, a, healed: false }),
    {
        RgbaColor { r, g, b, a, healed: false }
    }

    /// Create a color that stands in for an unreadable notation.
    pub fn new_healed(r: u8, g: u8, b: u8, a: u8) -> (color: RgbaColor)
        ensures
            color == (RgbaColor { r, g, b, a, healed: true }),
    {
        RgbaColor { r, g, b, a, healed: true }
    }

    /// Read a color from its hexadecimal notation, without the leading `#`.
    /// Fails exactly where the text is not three, four, six or eight
    /// hexadecimal digits.
    pub fn from_str(hex: &str) -> (parsed: Result<RgbaColor, ParseColorError>)
        ensures
            match parsed {
                Ok(color) => spec_parse_color(hex@) == Some(color),
                Err(_) => spec_parse_color(hex@) is None,
            },
    {
        let mut digits: Vec<u8> = Vec::new();
        let mut iter = hex.chars();
        loop
            invariant
                digits.len() <= 8,
                digits.len() <= hex@.len(),
                vstd::std_specs::iter::IteratorSpec::remaining(&iter) == hex@.skip(
                    digits.len() as int,
                ),
                forall|i: int|
                    0 <= i < digits.len() ==> spec_hex_digit(hex@[i]) == Some(#[trigger] digits[i]),
            ensures
                digits.len() == hex@.len(),
                digits.len() <= 8,
                forall|i: int|
                    0 <= i < digits.len() ==> spec_hex_digit(hex@[i]) == Some(#[trigger] digits[i]),
            decreases hex@.len() - digits.len(),
        {
            match iter.next() {
                None => {
                    break ;
                },
                Some(c) => {
                    assert(hex@[digits.len() as int] == c);
                    match hex_digit(c) {
                        None => {
                            return Err(ParseColorError);
                        },
                        Some(digit) => {
                            if digits.len() == 8 {
                                return Err(ParseColorError);
                            }
                            digits.push(digit);
                            assert(hex@.skip(digits.len() - 1).skip(1) =~= hex@.skip(
                                digits.len() as int,
                            ));
                        },
                    }
                },
            }
        }
        let n = digits.len();
        if n == 3 || n == 4 {
            let a = if n == 4 {
                17 * digits[3]
            } else {
                255
            };
            Ok(RgbaColor::new(17 * digits[0], 17 * digits[1], 17 * digits[2], a))
        } else if n == 6 || n == 8 {
            let a = if n == 8 {
                16 * digits[6] + digits[7]
            } else {
                255
            };
            Ok(
                RgbaColor::new(
                    16 * digits[0] + digits[1],
                    16 * digits[2] + digits[3],
                    16 * digits[4] + digits[5],
                    a,
                ),
            )
        } else {
            Err(ParseColorError)
        }
    }
}

} // verus!
