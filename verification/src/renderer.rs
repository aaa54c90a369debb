//! Pure layout and text helpers of the renderer: pixel glyphs of the built-in
//! bitmap font, number formatting and the placement of fixed HUD and dialog
//! elements. Drawing itself is done by the windowing layer.

use vstd::prelude::*;

use crate::text::{decimal, digit, push_decimal, string_push};

verus! {

/// UI texture set for buttons and overlays.
pub struct UiTextures {
    /// Whether real UI textures were loaded successfully.
    pub loaded: bool,
}

/// Icon types rendered inside HUD stat pills.
#[derive(Debug, Clone, Copy, PartialEq, Eq, Structural)]
pub enum HudIcon {
    /// No icon.
    NoIcon,
    Tile,
    Heart,
    Trophy,
    Lightbulb,
    Clock,
}

/// Rows of the 5x7 bitmap glyph of `c`, top row first; bit 4 is the leftmost
/// pixel. `None` for characters the font does not draw.
pub open spec fn spec_glyph(c: char) -> Option<Seq<u8>> {
    if c == 'a' {
        Some(seq![0b00000u8, 0b01110u8, 0b00001u8, 0b01111u8, 0b10001u8, 0b10011u8, 0b01101u8])
    } else if c == 'b' {
        Some(seq![0b10000u8, 0b10000u8, 0b11110u8, 0b10001u8, 0b10001u8, 0b10001u8, 0b11110u8])
    } else if c == 'c' {
        Some(seq![0b00000u8, 0b00000u8, 0b01110u8, 0b10000u8, 0b10000u8, 0b10001u8, 0b01110u8])
    } else if c == 'd' {
        Some(seq![0b00001u8, 0b00001u8, 0b01101u8, 0b10011u8, 0b10001u8, 0b10001u8, 0b01111u8])
    } else if c == 'e' {
        Some(seq![0b00000u8, 0b00000u8, 0b01110u8, 0b10001u8, 0b11111u8, 0b10000u8, 0b01110u8])
    } else if c == 'f' {
        Some(seq![0b00110u8, 0b01001u8, 0b01000u8, 0b11110u8, 0b01000u8, 0b01000u8, 0b01000u8])
    } else if c == 'g' {
        Some(seq![0b00000u8, 0b01111u8, 0b10001u8, 0b10001u8, 0b01111u8, 0b00001u8, 0b01110u8])
    } else if c == 'h' {
        Some(seq![0b10000u8, 0b10000u8, 0b11110u8, 0b10001u8, 0b10001u8, 0b10001u8, 0b10001u8])
    } else if c == 'i' {
        Some(seq![0b00100u8, 0b00000u8, 0b01100u8, 0b00100u8, 0b00100u8, 0b00100u8, 0b01110u8])
    } else if c == 'j' {
        Some(seq![0b00010u8, 0b00000u8, 0b00110u8, 0b00010u8, 0b00010u8, 0b10010u8, 0b01100u8])
    } else if c == 'k' {
        Some(seq![0b10000u8, 0b10000u8, 0b10010u8, 0b10100u8, 0b11000u8, 0b10100u8, 0b10010u8])
    } else if c == 'l' {
        Some(seq![0b01100u8, 0b00100u8, 0b00100u8, 0b00100u8, 0b00100u8, 0b00100u8, 0b01110u8])
    } else if c == 'm' {
        Some(seq![0b00000u8, 0b00000u8, 0b11010u8, 0b10101u8, 0b10101u8, 0b10001u8, 0b10001u8])
    } else if c == 'n' {
        Some(seq![0b00000u8, 0b00000u8, 0b11110u8, 0b10001u8, 0b10001u8, 0b10001u8, 0b10001u8])
    } else if c == 'o' {
        Some(seq![0b00000u8, 0b00000u8, 0b01110u8, 0b10001u8, 0b10001u8, 0b10001u8, 0b01110u8])
    } else if c == 'p' {
        Some(seq![0b00000u8, 0b11110u8, 0b10001u8, 0b10001u8, 0b11110u8, 0b10000u8, 0b10000u8])
    } else if c == 'q' {
        Some(seq![0b00000u8, 0b01111u8, 0b10001u8, 0b10001u8, 0b01111u8, 0b00001u8, 0b00001u8])
    } else if c == 'r' {
        Some(seq![0b00000u8, 0b00000u8, 0b10110u8, 0b11001u8, 0b10000u8, 0b10000u8, 0b10000u8])
    } else if c == 's' {
        Some(seq![0b00000u8, 0b00000u8, 0b01111u8, 0b10000u8, 0b01110u8, 0b00001u8, 0b11110u8])
    } else if c == 't' {
        Some(seq![0b01000u8, 0b01000u8, 0b11110u8, 0b01000u8, 0b01000u8, 0b01001u8, 0b00110u8])
    } else if c == 'u' {
        Some(seq![0b00000u8, 0b00000u8, 0b10001u8, 0b10001u8, 0b10001u8, 0b10011u8, 0b01101u8])
    } else if c == 'v' {
        Some(seq![0b00000u8, 0b00000u8, 0b10001u8, 0b10001u8, 0b10001u8, 0b01010u8, 0b00100u8])
    } else if c == 'w' {
        Some(seq![0b00000u8, 0b00000u8, 0b10001u8, 0b10101u8, 0b10101u8, 0b11011u8, 0b01010u8])
    } else if c == 'x' {
        Some(seq![0b00000u8, 0b00000u8, 0b10001u8, 0b01010u8, 0b00100u8, 0b01010u8, 0b10001u8])
    } else if c == 'y' {
        Some(seq![0b00000u8, 0b10001u8, 0b10001u8, 0b01111u8, 0b00001u8, 0b00001u8, 0b01110u8])
    } else if c == 'z' {
        Some(seq![0b00000u8, 0b00000u8, 0b11111u8, 0b00010u8, 0b00100u8, 0b01000u8, 0b11111u8])
    } else if c == 'A' {
        Some(seq![0b01110u8, 0b10001u8, 0b10001u8, 0b11111u8, 0b10001u8, 0b10001u8, 0b10001u8])
    } else if c == 'B' {
        Some(seq![0b11110u8, 0b10001u8, 0b10001u8, 0b11110u8, 0b10001u8, 0b10001u8, 0b11110u8])
    } else if c == 'C' {
        Some(seq![0b01110u8, 0b10001u8, 0b10000u8, 0b10000u8, 0b10000u8, 0b10001u8, 0b01110u8])
    } else if c == 'D' {
        Some(seq![0b11110u8, 0b10001u8, 0b10001u8, 0b10001u8, 0b10001u8, 0b10001u8, 0b11110u8])
    } else if c == 'E' {
        Some(seq![0b11111u8, 0b10000u8, 0b10000u8, 0b11110u8, 0b10000u8, 0b10000u8, 0b11111u8])
    } else if c == 'F' {
        Some(seq![0b11111u8, 0b10000u8, 0b10000u8, 0b11110u8, 0b10000u8, 0b10000u8, 0b10000u8])
    } else if c == 'G' {
        Some(seq![0b01110u8, 0b10001u8, 0b10000u8, 0b10111u8, 0b10001u8, 0b10001u8, 0b01110u8])
    } else if c == 'H' {
        Some(seq![0b10001u8, 0b10001u8, 0b10001u8, 0b11111u8, 0b10001u8, 0b10001u8, 0b10001u8])
    } else if c == 'I' {
        Some(seq![0b01110u8, 0b00100u8, 0b00100u8, 0b00100u8, 0b00100u8, 0b00100u8, 0b01110u8])
    } else if c == 'J' {
        Some(seq![0b00111u8, 0b00010u8, 0b00010u8, 0b00010u8, 0b00010u8, 0b10010u8, 0b01100u8])
    } else if c == 'K' {
        Some(seq![0b10001u8, 0b10010u8, 0b10100u8, 0b11000u8, 0b10100u8, 0b10010u8, 0b10001u8])
    } else if c == 'L' {
        Some(seq![0b10000u8, 0b10000u8, 0b10000u8, 0b10000u8, 0b10000u8, 0b10000u8, 0b11111u8])
    } else if c == 'M' {
        Some(seq![0b10001u8, 0b11011u8, 0b10101u8, 0b10101u8, 0b10001u8, 0b10001u8, 0b10001u8])
    } else if c == 'N' {
        Some(seq![0b10001u8, 0b11001u8, 0b10101u8, 0b10011u8, 0b10001u8, 0b10001u8, 0b10001u8])
    } else if c == 'O' {
        Some(seq![0b01110u8, 0b10001u8, 0b10001u8, 0b10001u8, 0b10001u8, 0b10001u8, 0b01110u8])
    } else if c == 'P' {
        Some(seq![0b11110u8, 0b10001u8, 0b10001u8, 0b11110u8, 0b10000u8, 0b10000u8, 0b10000u8])
    } else if c == 'Q' {
        Some(seq![0b01110u8, 0b10001u8, 0b10001u8, 0b10001u8, 0b10101u8, 0b10010u8, 0b01101u8])
    } else if c == 'R' {
        Some(seq![0b11110u8, 0b10001u8, 0b10001u8, 0b11110u8, 0b10100u8, 0b10010u8, 0b10001u8])
    } else if c == 'S' {
        Some(seq![0b01110u8, 0b10001u8, 0b10000u8, 0b01110u8, 0b00001u8, 0b10001u8, 0b01110u8])
    } else if c == 'T' {
        Some(seq![0b11111u8, 0b00100u8, 0b00100u8, 0b00100u8, 0b00100u8, 0b00100u8, 0b00100u8])
    } else if c == 'U' {
        Some(seq![0b10001u8, 0b10001u8, 0b10001u8, 0b10001u8, 0b10001u8, 0b10001u8, 0b01110u8])
    } else if c == 'V' {
        Some(seq![0b10001u8, 0b10001u8, 0b10001u8, 0b10001u8, 0b10001u8, 0b01010u8, 0b00100u8])
    } else if c == 'W' {
        Some(seq![0b10001u8, 0b10001u8, 0b10001u8, 0b10101u8, 0b10101u8, 0b11011u8, 0b10001u8])
    } else if c == 'X' {
        Some(seq![0b10001u8, 0b10001u8, 0b01010u8, 0b00100u8, 0b01010u8, 0b10001u8, 0b10001u8])
    } else if c == 'Y' {
        Some(seq![0b10001u8, 0b10001u8, 0b01010u8, 0b00100u8, 0b00100u8, 0b00100u8, 0b00100u8])
    } else if c == 'Z' {
        Some(seq![0b11111u8, 0b00001u8, 0b00010u8, 0b00100u8, 0b01000u8, 0b10000u8, 0b11111u8])
    } else if c == '0' {
        Some(seq![0b01110u8, 0b10001u8, 0b10011u8, 0b10101u8, 0b11001u8, 0b10001u8, 0b01110u8])
    } else if c == '1' {
        Some(seq![0b00100u8, 0b01100u8, 0b00100u8, 0b00100u8, 0b00100u8, 0b00100u8, 0b01110u8])
    } else if c == '2' {
        Some(seq![0b01110u8, 0b10001u8, 0b00001u8, 0b00110u8, 0b01000u8, 0b10000u8, 0b11111u8])
    } else if c == '3' {
        Some(seq![0b01110u8, 0b10001u8, 0b00001u8, 0b00110u8, 0b00001u8, 0b10001u8, 0b01110u8])
    } else if c == '4' {
        Some(seq![0b00010u8, 0b00110u8, 0b01010u8, 0b10010u8, 0b11111u8, 0b00010u8, 0b00010u8])
    } else if c == '5' {
        Some(seq![0b11111u8, 0b10000u8, 0b11110u8, 0b00001u8, 0b00001u8, 0b10001u8, 0b01110u8])
    } else if c == '6' {
        Some(seq![0b01110u8, 0b10000u8, 0b10000u8, 0b11110u8, 0b10001u8, 0b10001u8, 0b01110u8])
    } else if c == '7' {
        Some(seq![0b11111u8, 0b00001u8, 0b00010u8, 0b00100u8, 0b01000u8, 0b01000u8, 0b01000u8])
    } else if c == '8' {
        Some(seq![0b01110u8, 0b10001u8, 0b10001u8, 0b01110u8, 0b10001u8, 0b10001u8, 0b01110u8])
    } else if c == '9' {
        Some(seq![0b01110u8, 0b10001u8, 0b10001u8, 0b01111u8, 0b00001u8, 0b00001u8, 0b01110u8])
    } else if c == ' ' {
        Some(seq![0b00000u8, 0b00000u8, 0b00000u8, 0b00000u8, 0b00000u8, 0b00000u8, 0b00000u8])
    } else if c == ':' {
        Some(seq![0b00000u8, 0b00100u8, 0b00100u8, 0b00000u8, 0b00100u8, 0b00100u8, 0b00000u8])
    } else if c == '?' {
        Some(seq![0b01110u8, 0b10001u8, 0b00001u8, 0b00110u8, 0b00100u8, 0b00000u8, 0b00100u8])
    } else if c == '!' {
        Some(seq![0b00100u8, 0b00100u8, 0b00100u8, 0b00100u8, 0b00100u8, 0b00000u8, 0b00100u8])
    } else if c == '-' {
        Some(seq![0b00000u8, 0b00000u8, 0b00000u8, 0b11111u8, 0b00000u8, 0b00000u8, 0b00000u8])
    } else if c == '/' {
        Some(seq![0b00001u8, 0b00010u8, 0b00010u8, 0b00100u8, 0b01000u8, 0b01000u8, 0b10000u8])
    } else if c == '+' {
        Some(seq![0b00000u8, 0b00100u8, 0b00100u8, 0b11111u8, 0b00100u8, 0b00100u8, 0b00000u8])
    } else if c == '.' {
        Some(seq![0b00000u8, 0b00000u8, 0b00000u8, 0b00000u8, 0b00000u8, 0b00000u8, 0b00100u8])
    } else if c == ',' {
        Some(seq![0b00000u8, 0b00000u8, 0b00000u8, 0b00000u8, 0b00000u8, 0b00100u8, 0b01000u8])
    } else if c == '(' {
        Some(seq![0b00010u8, 0b00100u8, 0b01000u8, 0b01000u8, 0b01000u8, 0b00100u8, 0b00010u8])
    } else if c == ')' {
        Some(seq![0b01000u8, 0b00100u8, 0b00010u8, 0b00010u8, 0b00010u8, 0b00100u8, 0b01000u8])
    } else if c == '&' {
        Some(seq![0b01100u8, 0b10010u8, 0b01100u8, 0b01010u8, 0b10001u8, 0b10010u8, 0b01101u8])
    } else if c == '*' {
        Some(seq![0b00000u8, 0b10101u8, 0b01110u8, 0b11111u8, 0b01110u8, 0b10101u8, 0b00000u8])
    } else if c == '%' {
        Some(seq![0b11001u8, 0b11010u8, 0b00100u8, 0b01000u8, 0b01011u8, 0b10011u8, 0b00000u8])
    } else if c == '[' {
        Some(seq![0b01110u8, 0b01000u8, 0b01000u8, 0b01000u8, 0b01000u8, 0b01000u8, 0b01110u8])
    } else if c == ']' {
        Some(seq![0b01110u8, 0b00010u8, 0b00010u8, 0b00010u8, 0b00010u8, 0b00010u8, 0b01110u8])
    } else if c == '<' {
        Some(seq![0b00010u8, 0b00100u8, 0b01000u8, 0b10000u8, 0b01000u8, 0b00100u8, 0b00010u8])
    } else if c == '>' {
        Some(seq![0b01000u8, 0b00100u8, 0b00010u8, 0b00001u8, 0b00010u8, 0b00100u8, 0b01000u8])
    } else {
        None
    }
}

/// Returns the 5x7 bitmap glyph of a character: seven rows, top first, each a
/// 5-bit pattern whose bit 4 is the leftmost pixel; `None` when the built-in
/// font has no glyph for it.
#[verifier::rlimit(50)]
pub fn bitmap_glyph(ch: char) -> (g: Option<[u8; 7]>)
    ensures
        match g {
            Some(rows) => spec_glyph(ch) == Some(rows@),
            None => spec_glyph(ch) is None,
        },
{
    let g = match ch {
        'a' => Some([0b00000, 0b01110, 0b00001, 0b01111, 0b10001, 0b10011, 0b01101]),
        'b' => Some([0b10000, 0b10000, 0b11110, 0b10001, 0b10001, 0b10001, 0b11110]),
        'c' => Some([0b00000, 0b00000, 0b01110, 0b10000, 0b10000, 0b10001, 0b01110]),
        'd' => Some([0b00001, 0b00001, 0b01101, 0b10011, 0b10001, 0b10001, 0b01111]),
        'e' => Some([0b00000, 0b00000, 0b01110, 0b10001, 0b11111, 0b10000, 0b01110]),
        'f' => Some([0b00110, 0b01001, 0b01000, 0b11110, 0b01000, 0b01000, 0b01000]),
        'g' => Some([0b00000, 0b01111, 0b10001, 0b10001, 0b01111, 0b00001, 0b01110]),
        'h' => Some([0b10000, 0b10000, 0b11110, 0b10001, 0b10001, 0b10001, 0b10001]),
        'i' => Some([0b00100, 0b00000, 0b01100, 0b00100, 0b00100, 0b00100, 0b01110]),
        'j' => Some([0b00010, 0b00000, 0b00110, 0b00010, 0b00010, 0b10010, 0b01100]),
        'k' => Some([0b10000, 0b10000, 0b10010, 0b10100, 0b11000, 0b10100, 0b10010]),
        'l' => Some([0b01100, 0b00100, 0b00100, 0b00100, 0b00100, 0b00100, 0b01110]),
        'm' => Some([0b00000, 0b00000, 0b11010, 0b10101, 0b10101, 0b10001, 0b10001]),
        'n' => Some([0b00000, 0b00000, 0b11110, 0b10001, 0b10001, 0b10001, 0b10001]),
        'o' => Some([0b00000, 0b00000, 0b01110, 0b10001, 0b10001, 0b10001, 0b01110]),
        'p' => Some([0b00000, 0b11110, 0b10001, 0b10001, 0b11110, 0b10000, 0b10000]),
        'q' => Some([0b00000, 0b01111, 0b10001, 0b10001, 0b01111, 0b00001, 0b00001]),
        'r' => Some([0b00000, 0b00000, 0b10110, 0b11001, 0b10000, 0b10000, 0b10000]),
        's' => Some([0b00000, 0b00000, 0b01111, 0b10000, 0b01110, 0b00001, 0b11110]),
        't' => Some([0b01000, 0b01000, 0b11110, 0b01000, 0b01000, 0b01001, 0b00110]),
        'u' => Some([0b00000, 0b00000, 0b10001, 0b10001, 0b10001, 0b10011, 0b01101]),
        'v' => Some([0b00000, 0b00000, 0b10001, 0b10001, 0b10001, 0b01010, 0b00100]),
        'w' => Some([0b00000, 0b00000, 0b10001, 0b10101, 0b10101, 0b11011, 0b01010]),
        'x' => Some([0b00000, 0b00000, 0b10001, 0b01010, 0b00100, 0b01010, 0b10001]),
        'y' => Some([0b00000, 0b10001, 0b10001, 0b01111, 0b00001, 0b00001, 0b01110]),
        'z' => Some([0b00000, 0b00000, 0b11111, 0b00010, 0b00100, 0b01000, 0b11111]),
        'A' => Some([0b01110, 0b10001, 0b10001, 0b11111, 0b10001, 0b10001, 0b10001]),
        'B' => Some([0b11110, 0b10001, 0b10001, 0b11110, 0b10001, 0b10001, 0b11110]),
        'C' => Some([0b01110, 0b10001, 0b10000, 0b10000, 0b10000, 0b10001, 0b01110]),
        'D' => Some([0b11110, 0b10001, 0b10001, 0b10001, 0b10001, 0b10001, 0b11110]),
        'E' => Some([0b11111, 0b10000, 0b10000, 0b11110, 0b10000, 0b10000, 0b11111]),
        'F' => Some([0b11111, 0b10000, 0b10000, 0b11110, 0b10000, 0b10000, 0b10000]),
        'G' => Some([0b01110, 0b10001, 0b10000, 0b10111, 0b10001, 0b10001, 0b01110]),
        'H' => Some([0b10001, 0b10001, 0b10001, 0b11111, 0b10001, 0b10001, 0b10001]),
        'I' => Some([0b01110, 0b00100, 0b00100, 0b00100, 0b00100, 0b00100, 0b01110]),
        'J' => Some([0b00111, 0b00010, 0b00010, 0b00010, 0b00010, 0b10010, 0b01100]),
        'K' => Some([0b10001, 0b10010, 0b10100, 0b11000, 0b10100, 0b10010, 0b10001]),
        'L' => Some([0b10000, 0b10000, 0b10000, 0b10000, 0b10000, 0b10000, 0b11111]),
        'M' => Some([0b10001, 0b11011, 0b10101, 0b10101, 0b10001, 0b10001, 0b10001]),
        'N' => Some([0b10001, 0b11001, 0b10101, 0b10011, 0b10001, 0b10001, 0b10001]),
        'O' => Some([0b01110, 0b10001, 0b10001, 0b10001, 0b10001, 0b10001, 0b01110]),
        'P' => Some([0b11110, 0b10001, 0b10001, 0b11110, 0b10000, 0b10000, 0b10000]),
        'Q' => Some([0b01110, 0b10001, 0b10001, 0b10001, 0b10101, 0b10010, 0b01101]),
        'R' => Some([0b11110, 0b10001, 0b10001, 0b11110, 0b10100, 0b10010, 0b10001]),
        'S' => Some([0b01110, 0b10001, 0b10000, 0b01110, 0b00001, 0b10001, 0b01110]),
        'T' => Some([0b11111, 0b00100, 0b00100, 0b00100, 0b00100, 0b00100, 0b00100]),
        'U' => Some([0b10001, 0b10001, 0b10001, 0b10001, 0b10001, 0b10001, 0b01110]),
        'V' => Some([0b10001, 0b10001, 0b10001, 0b10001, 0b10001, 0b01010, 0b00100]),
        'W' => Some([0b10001, 0b10001, 0b10001, 0b10101, 0b10101, 0b11011, 0b10001]),
        'X' => Some([0b10001, 0b10001, 0b01010, 0b00100, 0b01010, 0b10001, 0b10001]),
        'Y' => Some([0b10001, 0b10001, 0b01010, 0b00100, 0b00100, 0b00100, 0b00100]),
        'Z' => Some([0b11111, 0b00001, 0b00010, 0b00100, 0b01000, 0b10000, 0b11111]),
        '0' => Some([0b01110, 0b10001, 0b10011, 0b10101, 0b11001, 0b10001, 0b01110]),
        '1' => Some([0b00100, 0b01100, 0b00100, 0b00100, 0b00100, 0b00100, 0b01110]),
        '2' => Some([0b01110, 0b10001, 0b00001, 0b00110, 0b01000, 0b10000, 0b11111]),
        '3' => Some([0b01110, 0b10001, 0b00001, 0b00110, 0b00001, 0b10001, 0b01110]),
        '4' => Some([0b00010, 0b00110, 0b01010, 0b10010, 0b11111, 0b00010, 0b00010]),
        '5' => Some([0b11111, 0b10000, 0b11110, 0b00001, 0b00001, 0b10001, 0b01110]),
        '6' => Some([0b01110, 0b10000, 0b10000, 0b11110, 0b10001, 0b10001, 0b01110]),
        '7' => Some([0b11111, 0b00001, 0b00010, 0b00100, 0b01000, 0b01000, 0b01000]),
        '8' => Some([0b01110, 0b10001, 0b10001, 0b01110, 0b10001, 0b10001, 0b01110]),
        '9' => Some([0b01110, 0b10001, 0b10001, 0b01111, 0b00001, 0b00001, 0b01110]),
        ' ' => Some([0b00000, 0b00000, 0b00000, 0b00000, 0b00000, 0b00000, 0b00000]),
        ':' => Some([0b00000, 0b00100, 0b00100, 0b00000, 0b00100, 0b00100, 0b00000]),
        '?' => Some([0b01110, 0b10001, 0b00001, 0b00110, 0b00100, 0b00000, 0b00100]),
        '!' => Some([0b00100, 0b00100, 0b00100, 0b00100, 0b00100, 0b00000, 0b00100]),
        '-' => Some([0b00000, 0b00000, 0b00000, 0b11111, 0b00000, 0b00000, 0b00000]),
        '/' => Some([0b00001, 0b00010, 0b00010, 0b00100, 0b01000, 0b01000, 0b10000]),
        '+' => Some([0b00000, 0b00100, 0b00100, 0b11111, 0b00100, 0b00100, 0b00000]),
        '.' => Some([0b00000, 0b00000, 0b00000, 0b00000, 0b00000, 0b00000, 0b00100]),
        ',' => Some([0b00000, 0b00000, 0b00000, 0b00000, 0b00000, 0b00100, 0b01000]),
        '(' => Some([0b00010, 0b00100, 0b01000, 0b01000, 0b01000, 0b00100, 0b00010]),
        ')' => Some([0b01000, 0b00100, 0b00010, 0b00010, 0b00010, 0b00100, 0b01000]),
        '&' => Some([0b01100, 0b10010, 0b01100, 0b01010, 0b10001, 0b10010, 0b01101]),
        '*' => Some([0b00000, 0b10101, 0b01110, 0b11111, 0b01110, 0b10101, 0b00000]),
        '%' => Some([0b11001, 0b11010, 0b00100, 0b01000, 0b01011, 0b10011, 0b00000]),
        '[' => Some([0b01110, 0b01000, 0b01000, 0b01000, 0b01000, 0b01000, 0b01110]),
        ']' => Some([0b01110, 0b00010, 0b00010, 0b00010, 0b00010, 0b00010, 0b01110]),
        '<' => Some([0b00010, 0b00100, 0b01000, 0b10000, 0b01000, 0b00100, 0b00010]),
        '>' => Some([0b01000, 0b00100, 0b00010, 0b00001, 0b00010, 0b00100, 0b01000]),
        _ => None,
    };
    proof {
        if let Some(rows) = g {
            assert(spec_glyph(ch) == Some(rows@));
        }
    }
    g
}

/// The three decimal digits of `m < 1000`, with leading zeros.
pub open spec fn three_digits(m: nat) -> Seq<char> {
    seq![digit((m / 100) as int), digit(((m / 10) % 10) as int), digit((m % 10) as int)]
}

/// Decimal representation of `n` with a comma between groups of three digits,
/// counted from the right (e.g. 11965 -> "11,965").
pub open spec fn comma_grouped(n: nat) -> Seq<char>
    decreases n,
{
    if n < 1000 {
        decimal(n)
    } else {
        comma_grouped(n / 1000) + seq![','] + three_digits(n % 1000)
    }
}

/// Not a comma.
pub open spec fn not_comma(c: char) -> bool {
    c != ','
}

proof fn lemma_decimal_digits(n: nat)
    ensures
        forall|i: int| 0 <= i < decimal(n).len() ==> not_comma(#[trigger] decimal(n)[i]),
    decreases n,
{
    let d = (n % 10) as int;
    assert(0 <= d < 10);
    assert(digit(d) as u32 == d + 48);
    if n >= 10 {
        lemma_decimal_digits(n / 10);
        assert(decimal(n) == decimal(n / 10).push(digit(d)));
    }
}

proof fn lemma_decimal_split(n: nat)
    requires
        n >= 1000,
    ensures
        decimal(n) == decimal(n / 1000) + three_digits(n % 1000),
{
    assert((n / 10) / 10 == n / 100) by (nonlinear_arith) requires n >= 1000;
    assert((n / 100) / 10 == n / 1000) by (nonlinear_arith) requires n >= 1000;
    assert((n % 1000) / 100 == (n / 100) % 10) by (nonlinear_arith) requires n >= 1000;
    assert(((n % 1000) / 10) % 10 == (n / 10) % 10) by (nonlinear_arith) requires n >= 1000;
    assert((n % 1000) % 10 == n % 10) by (nonlinear_arith) requires n >= 1000;
    assert(n / 10 >= 10 && n / 100 >= 10) by (nonlinear_arith) requires n >= 1000;
    assert(decimal(n) == decimal(n / 10).push(digit((n % 10) as int)));
    assert(decimal(n / 10) == decimal((n / 10) / 10).push(digit(((n / 10) % 10) as int)));
    assert(decimal(n / 100) == decimal((n / 100) / 10).push(digit(((n / 100) % 10) as int)));
    assert(decimal(n) =~= decimal(n / 1000) + three_digits(n % 1000));
}

proof fn lemma_no_commas_unchanged(s: Seq<char>)
    requires
        forall|i: int| 0 <= i < s.len() ==> not_comma(#[trigger] s[i]),
    ensures
        s.filter(|c: char| not_comma(c)) == s,
    decreases s.len(),
{
    reveal(Seq::filter);
    if s.len() > 0 {
        lemma_no_commas_unchanged(s.drop_last());
        assert(s.drop_last().push(s.last()) =~= s);
    }
}

/// Removing the commas from a grouped number gives its plain decimal digits.
pub proof fn lemma_grouping_keeps_digits(n: nat)
    ensures
        comma_grouped(n).filter(|c: char| not_comma(c)) == decimal(n),
    decreases n,
{
    if n < 1000 {
        lemma_decimal_digits(n);
        lemma_no_commas_unchanged(decimal(n));
    } else {
        lemma_grouping_keeps_digits(n / 1000);
        lemma_decimal_split(n);
        let f = |c: char| not_comma(c);
        let head = comma_grouped(n / 1000);
        let t = three_digits(n % 1000);
        Seq::filter_distributes_over_add(head + seq![','], t, f);
        Seq::filter_distributes_over_add(head, seq![','], f);
        assert(seq![','].filter(f) =~= Seq::<char>::empty()) by {
            reveal_with_fuel(Seq::<char>::filter, 2);
            assert(seq![','].drop_last() =~= Seq::<char>::empty());
        }
        lemma_no_commas_unchanged(t);
        assert(comma_grouped(n) == head + seq![','] + t);
    }
}

/// Appends `n` with comma grouping to `s`.
fn push_grouped(s: &mut String, n: u64)
    ensures
        final(s)@ == old(s)@ + comma_grouped(n as nat),
    decreases n,
{
    if n < 1000 {
        push_decimal(s, n);
    } else {
        push_grouped(s, n / 1000);
        string_push(s, ',');
        let m = n % 1000;
        string_push(s, ((m / 100) as u8 + 48) as char);
        string_push(s, (((m / 10) % 10) as u8 + 48) as char);
        string_push(s, ((m % 10) as u8 + 48) as char);
        assert(final(s)@ =~= old(s)@ + comma_grouped(n as nat));
    }
}

/// Formats a number with comma grouping (e.g. 11965 -> "11,965").
pub fn format_number_commas(num: u64) -> (s: String)
    ensures
        s@ == comma_grouped(num as nat),
{
    let mut s = String::new();
    push_grouped(&mut s, num);
    assert(s@ =~= comma_grouped(num as nat));
    s
}

/// An axis-aligned rectangle in window pixels: top-left corner and size.
#[derive(Debug, Clone, Copy, PartialEq, Eq, Structural)]
pub struct PixelRect {
    pub x: i32,
    pub y: i32,
    pub w: u32,
    pub h: u32,
}

/// Height of the HUD bar in pixels (timer, score, shuffle display).
pub const HUD_BAR_HEIGHT: u32 = 40;

/// Returns the bounding rectangle of the HUD mute button for hit-testing:
/// 34x26 pixels, 14 pixels from the right edge of a window `win_w` wide, 7 from the top.
pub fn hud_mute_button_rect(win_w: u32) -> (r: PixelRect)
    requires
        (win_w as i32) - 48 >= i32::MIN,
    ensures
        r == (PixelRect { x: ((win_w as i32) - 48) as i32, y: 7, w: 34, h: 26 }),
{
    let btn_w: i32 = 34;
    let btn_h: i32 = 26;
    let btn_x = win_w as i32 - btn_w - 14;
    let btn_y: i32 = 7;
    PixelRect { x: btn_x, y: btn_y, w: btn_w as u32, h: btn_h as u32 }
}

/// Width of the Trophies & Stats dialog.
pub const LEADERBOARD_WIDTH: u32 = 660;

/// Height of the Trophies & Stats dialog.
pub const LEADERBOARD_HEIGHT: u32 = 452;

/// Height of the stats card within the dialog (without the action buttons).
pub const STATS_CARD_HEIGHT: u32 = 398;

/// Left edge of the dialog: centered, or at 0 in a window narrower than it.
pub open spec fn dialog_x(win_w: u32) -> int {
    if win_w >= 660 {
        (win_w - 660) / 2
    } else {
        0
    }
}

/// Top edge of the dialog: centered, or at 0 in a window lower than it.
pub open spec fn dialog_y(win_h: u32) -> int {
    if win_h >= 452 {
        (win_h - 452) / 2
    } else {
        0
    }
}

/// Computes the rectangle of the Trophies & Stats dialog centered in the window.
pub fn leaderboard_dialog_rect(win_w: u32, win_h: u32) -> (r: PixelRect)
    ensures
        r.x == dialog_x(win_w),
        r.y == dialog_y(win_h),
        r.w == LEADERBOARD_WIDTH,
        r.h == LEADERBOARD_HEIGHT,
{
    let dialog_x = win_w.saturating_sub(LEADERBOARD_WIDTH) / 2;
    let dialog_y = win_h.saturating_sub(LEADERBOARD_HEIGHT) / 2;
    PixelRect { x: dialog_x as i32, y: dialog_y as i32, w: LEADERBOARD_WIDTH, h: LEADERBOARD_HEIGHT }
}

/// Computes the rectangle of the stats card (the dialog without its action buttons).
pub fn leaderboard_stats_card_rect(win_w: u32, win_h: u32) -> (r: PixelRect)
    ensures
        r.x == dialog_x(win_w),
        r.y == dialog_y(win_h),
        r.w == LEADERBOARD_WIDTH,
        r.h == STATS_CARD_HEIGHT,
{
    let dialog = leaderboard_dialog_rect(win_w, win_h);
    PixelRect { x: dialog.x, y: dialog.y, w: LEADERBOARD_WIDTH, h: STATS_CARD_HEIGHT }
}

/// Returns the rectangles of the two action buttons (Save Stats Image, Close):
/// 295x38 each, 12 pixels below the stats card, at 25 and 340 pixels from the dialog's left edge.
pub fn leaderboard_buttons(win_w: u32, win_h: u32) -> (r: (PixelRect, PixelRect))
    requires
        dialog_y(win_h) + 410 <= i32::MAX,
        dialog_x(win_w) + 340 <= i32::MAX,
    ensures
        r.0 == (PixelRect { x: (dialog_x(win_w) + 25) as i32, y: (dialog_y(win_h) + 410) as i32, w: 295, h: 38 }),
        r.1 == (PixelRect { x: (dialog_x(win_w) + 340) as i32, y: (dialog_y(win_h) + 410) as i32, w: 295, h: 38 }),
{
    let dialog = leaderboard_dialog_rect(win_w, win_h);
    let btn_w: u32 = 295;
    let btn_h: u32 = 38;
    let btn_y = dialog.y + STATS_CARD_HEIGHT as i32 + 12;
    let btn1 = PixelRect { x: dialog.x + 25, y: btn_y, w: btn_w, h: btn_h };
    let btn2 = PixelRect { x: dialog.x + 340, y: btn_y, w: btn_w, h: btn_h };
    (btn1, btn2)
}

/// Row `r` of a glyph read from right to left.
pub open spec fn reversed_row(r: u8) -> u8 {
    ((r % 2) * 16 + (r / 2) % 2 * 8 + (r / 4) % 2 * 4 + (r / 8) % 2 * 2 + (r / 16) % 2) as u8
}

/// A glyph seen in a mirror: every row reversed left to right.
pub open spec fn mirrored(rows: Seq<u8>) -> Seq<u8> {
    rows.map_values(|r: u8| reversed_row(r))
}

/// A glyph turned upside down: its rows in reverse order.
pub open spec fn flipped(rows: Seq<u8>) -> Seq<u8> {
    rows.reverse()
}

/// A glyph turned half a turn: upside down and mirrored.
pub open spec fn turned(rows: Seq<u8>) -> Seq<u8> {
    mirrored(flipped(rows))
}

/// The glyph of `c` (meaningful where the font draws `c`).
pub open spec fn glyph_rows(c: char) -> Seq<u8> {
    spec_glyph(c)->0
}

/// Every glyph is five pixels wide and seven rows high.
pub proof fn lemma_glyph_shape(c: char)
    requires
        spec_glyph(c) is Some,
    ensures
        glyph_rows(c).len() == 7,
        forall|i: int| 0 <= i < 7 ==> #[trigger] glyph_rows(c)[i] < 32,
{
}

/// The font's left-right symmetric characters have left-right symmetric glyphs:
/// `ovwxAHIMOTUVWXY8 :!-+.*`.
pub proof fn lemma_symmetric_glyphs()
    ensures
        mirrored(glyph_rows('o')) == glyph_rows('o'),
        mirrored(glyph_rows('v')) == glyph_rows('v'),
        mirrored(glyph_rows('w')) == glyph_rows('w'),
        mirrored(glyph_rows('x')) == glyph_rows('x'),
        mirrored(glyph_rows('A')) == glyph_rows('A'),
        mirrored(glyph_rows('H')) == glyph_rows('H'),
        mirrored(glyph_rows('I')) == glyph_rows('I'),
        mirrored(glyph_rows('M')) == glyph_rows('M'),
        mirrored(glyph_rows('O')) == glyph_rows('O'),
        mirrored(glyph_rows('T')) == glyph_rows('T'),
        mirrored(glyph_rows('U')) == glyph_rows('U'),
        mirrored(glyph_rows('V')) == glyph_rows('V'),
        mirrored(glyph_rows('W')) == glyph_rows('W'),
        mirrored(glyph_rows('X')) == glyph_rows('X'),
        mirrored(glyph_rows('Y')) == glyph_rows('Y'),
        mirrored(glyph_rows('8')) == glyph_rows('8'),
        mirrored(glyph_rows(' ')) == glyph_rows(' '),
        mirrored(glyph_rows(':')) == glyph_rows(':'),
        mirrored(glyph_rows('!')) == glyph_rows('!'),
        mirrored(glyph_rows('-')) == glyph_rows('-'),
        mirrored(glyph_rows('+')) == glyph_rows('+'),
        mirrored(glyph_rows('.')) == glyph_rows('.'),
        mirrored(glyph_rows('*')) == glyph_rows('*'),
{
    assert(mirrored(glyph_rows('o')) =~= glyph_rows('o'));
    assert(mirrored(glyph_rows('v')) =~= glyph_rows('v'));
    assert(mirrored(glyph_rows('w')) =~= glyph_rows('w'));
    assert(mirrored(glyph_rows('x')) =~= glyph_rows('x'));
    assert(mirrored(glyph_rows('A')) =~= glyph_rows('A'));
    assert(mirrored(glyph_rows('H')) =~= glyph_rows('H'));
    assert(mirrored(glyph_rows('I')) =~= glyph_rows('I'));
    assert(mirrored(glyph_rows('M')) =~= glyph_rows('M'));
    assert(mirrored(glyph_rows('O')) =~= glyph_rows('O'));
    assert(mirrored(glyph_rows('T')) =~= glyph_rows('T'));
    assert(mirrored(glyph_rows('U')) =~= glyph_rows('U'));
    assert(mirrored(glyph_rows('V')) =~= glyph_rows('V'));
    assert(mirrored(glyph_rows('W')) =~= glyph_rows('W'));
    assert(mirrored(glyph_rows('X')) =~= glyph_rows('X'));
    assert(mirrored(glyph_rows('Y')) =~= glyph_rows('Y'));
    assert(mirrored(glyph_rows('8')) =~= glyph_rows('8'));
    assert(mirrored(glyph_rows(' ')) =~= glyph_rows(' '));
    assert(mirrored(glyph_rows(':')) =~= glyph_rows(':'));
    assert(mirrored(glyph_rows('!')) =~= glyph_rows('!'));
    assert(mirrored(glyph_rows('-')) =~= glyph_rows('-'));
    assert(mirrored(glyph_rows('+')) =~= glyph_rows('+'));
    assert(mirrored(glyph_rows('.')) =~= glyph_rows('.'));
    assert(mirrored(glyph_rows('*')) =~= glyph_rows('*'));
}

/// Glyphs that are images of each other: `(` and `)`, `[` and `]`, `<` and `>`,
/// `p` and `q` are mirror images; `W` is `M` upside down; a half turn takes `6`
/// to `9`, `M` to `W`, each bracket to its partner, and leaves `HIOSXZ08 :-/+*` unchanged.
pub proof fn lemma_glyph_images()
    ensures
        mirrored(glyph_rows('(')) == glyph_rows(')'),
        mirrored(glyph_rows('[')) == glyph_rows(']'),
        mirrored(glyph_rows('<')) == glyph_rows('>'),
        mirrored(glyph_rows('p')) == glyph_rows('q'),
        flipped(glyph_rows('M')) == glyph_rows('W'),
        turned(glyph_rows('6')) == glyph_rows('9'),
        turned(glyph_rows('M')) == glyph_rows('W'),
        turned(glyph_rows('(')) == glyph_rows(')'),
        turned(glyph_rows('[')) == glyph_rows(']'),
        turned(glyph_rows('<')) == glyph_rows('>'),
        turned(glyph_rows('H')) == glyph_rows('H'),
        turned(glyph_rows('I')) == glyph_rows('I'),
        turned(glyph_rows('O')) == glyph_rows('O'),
        turned(glyph_rows('S')) == glyph_rows('S'),
        turned(glyph_rows('X')) == glyph_rows('X'),
        turned(glyph_rows('Z')) == glyph_rows('Z'),
        turned(glyph_rows('0')) == glyph_rows('0'),
        turned(glyph_rows('8')) == glyph_rows('8'),
        turned(glyph_rows(' ')) == glyph_rows(' '),
        turned(glyph_rows(':')) == glyph_rows(':'),
        turned(glyph_rows('-')) == glyph_rows('-'),
        turned(glyph_rows('/')) == glyph_rows('/'),
        turned(glyph_rows('+')) == glyph_rows('+'),
        turned(glyph_rows('*')) == glyph_rows('*'),
{
    assert(mirrored(glyph_rows('(')) =~= glyph_rows(')'));
    assert(mirrored(glyph_rows('[')) =~= glyph_rows(']'));
    assert(mirrored(glyph_rows('<')) =~= glyph_rows('>'));
    assert(mirrored(glyph_rows('p')) =~= glyph_rows('q'));
    assert(flipped(glyph_rows('M')) =~= glyph_rows('W'));
    assert(turned(glyph_rows('6')) =~= glyph_rows('9'));
    assert(turned(glyph_rows('M')) =~= glyph_rows('W'));
    assert(turned(glyph_rows('(')) =~= glyph_rows(')'));
    assert(turned(glyph_rows('[')) =~= glyph_rows(']'));
    assert(turned(glyph_rows('<')) =~= glyph_rows('>'));
    assert(turned(glyph_rows('H')) =~= glyph_rows('H'));
    assert(turned(glyph_rows('I')) =~= glyph_rows('I'));
    assert(turned(glyph_rows('O')) =~= glyph_rows('O'));
    assert(turned(glyph_rows('S')) =~= glyph_rows('S'));
    assert(turned(glyph_rows('X')) =~= glyph_rows('X'));
    assert(turned(glyph_rows('Z')) =~= glyph_rows('Z'));
    assert(turned(glyph_rows('0')) =~= glyph_rows('0'));
    assert(turned(glyph_rows('8')) =~= glyph_rows('8'));
    assert(turned(glyph_rows(' ')) =~= glyph_rows(' '));
    assert(turned(glyph_rows(':')) =~= glyph_rows(':'));
    assert(turned(glyph_rows('-')) =~= glyph_rows('-'));
    assert(turned(glyph_rows('/')) =~= glyph_rows('/'));
    assert(turned(glyph_rows('+')) =~= glyph_rows('+'));
    assert(turned(glyph_rows('*')) =~= glyph_rows('*'));
}

/// A glyph as one number: row `i` is the digit of weight `32^i` in base 32.
pub open spec fn glyph_number(rows: Seq<u8>) -> int {
    rows[0] + 32 * rows[1] + 1024 * rows[2] + 32768 * rows[3] + 1048576 * rows[4] + 33554432
        * rows[5] + 1073741824 * rows[6]
}

/// The character whose glyph has number `n`, read back from the font.
spec fn glyph_reader(n: int) -> char {
    if n == 14614496704 {
        'a'
    } else if n == 32801094160 {
        'b'
    } else if n == 15620126720 {
        'c'
    } else if n == 16695014433 {
        'd'
    } else if n == 15602333696 {
        'e'
    } else if n == 8867750182 {
        'f'
    } else if n == 15082243552 {
        'g'
    } else if n == 18842450448 {
        'h'
    } else if n == 15170940932 {
        'i'
    } else if n == 13491050498 {
        'j'
    } else if n == 20024281616 {
        'k'
    } else if n == 15170932876 {
        'l'
    } else if n == 18846771200 {
        'm'
    } else if n == 18842449920 {
        'n'
    } else if n == 15621208064 {
        'o'
    } else if n == 17748772800 {
        'p'
    } else if n == 1123599840 {
        'q'
    } else if n == 17734359040 {
        'r'
    } else if n == 32261028864 {
        's'
    } else if n == 6753122568 {
        't'
    } else if n == 14614578176 {
        'u'
    } else if n == 4648911872 {
        'v'
    } else if n == 11666113536 {
        'w'
    } else if n == 18593694720 {
        'x'
    } else if n == 15067498016 {
        'y'
    } else if n == 33558723584 {
        'z'
    } else if n == 18842895918 {
        'A'
    } else if n == 32801506878 {
        'B'
    } else if n == 15620129326 {
        'C'
    } else if n == 32801080894 {
        'D'
    } else if n == 33840644639 {
        'E'
    } else if n == 17734517279 {
        'F'
    } else if n == 15621407278 {
        'G'
    } else if n == 18842895921 {
        'H'
    } else if n == 15170932878 {
        'I'
    } else if n == 13491046471 {
        'J'
    } else if n == 18879369809 {
        'K'
    } else if n == 33840185872 {
        'L'
    } else if n == 18842572657 {
        'M'
    } else if n == 18842507057 {
        'N'
    } else if n == 15621211694 {
        'O'
    } else if n == 17734518334 {
        'P'
    } else if n == 14585218606 {
        'Q'
    } else if n == 18879563326 {
        'R'
    } else if n == 15604335150 {
        'S'
    } else if n == 4433514655 {
        'T'
    } else if n == 15621211697 {
        'U'
    } else if n == 4648912433 {
        'V'
    } else if n == 19182306865 {
        'W'
    } else if n == 18834663985 {
        'X'
    } else if n == 4433521201 {
        'Y'
    } else if n == 33831389247 {
        'Z'
    } else if n == 15629733422 {
        '0'
    } else if n == 15170933124 {
        '1'
    } else if n == 33831454254 {
        '2'
    } else if n == 15604057646 {
        '3'
    } else if n == 2247698626 {
        '4'
    } else if n == 15603923487 {
        '5'
    } else if n == 15621636622 {
        '6'
    } else if n == 8866891839 {
        '7'
    } else if n == 15621113390 {
        '8'
    } else if n == 15067498030 {
        '9'
    } else if n == 0 {
        ' '
    } else if n == 138416256 {
        ':'
    } else if n == 4299359790 {
        '?'
    } else if n == 4299296900 {
        '!'
    } else if n == 1015808 {
        '-'
    } else if n == 17456826433 {
        '/'
    } else if n == 139432064 {
        '+'
    } else if n == 4294967296 {
        '.'
    } else if n == 8724152320 {
        ','
    } else if n == 2290360450 {
        '('
    } else if n == 8726317192 {
        ')'
    } else if n == 14580789836 {
        '&'
    } else if n == 720353952 {
        '*'
    } else if n == 649335641 {
        '%'
    } else if n == 15309480206 {
        '['
    } else if n == 15101659214 {
        ']'
    } else if n == 2290622594 {
        '<'
    } else if n == 8726284424 {
        '>'
    } else {
        '\u{0}'
    }
}

/// A glyph can be read back: the character is recovered from its glyph.
proof fn lemma_glyph_read_back(c: char)
    requires
        spec_glyph(c) is Some,
    ensures
        glyph_reader(glyph_number(glyph_rows(c))) == c,
{
    if c == 'a' {
        assert(glyph_number(glyph_rows(c)) == 14614496704);
    } else if c == 'b' {
        assert(glyph_number(glyph_rows(c)) == 32801094160);
    } else if c == 'c' {
        assert(glyph_number(glyph_rows(c)) == 15620126720);
    } else if c == 'd' {
        assert(glyph_number(glyph_rows(c)) == 16695014433);
    } else if c == 'e' {
        assert(glyph_number(glyph_rows(c)) == 15602333696);
    } else if c == 'f' {
        assert(glyph_number(glyph_rows(c)) == 8867750182);
    } else if c == 'g' {
        assert(glyph_number(glyph_rows(c)) == 15082243552);
    } else if c == 'h' {
        assert(glyph_number(glyph_rows(c)) == 18842450448);
    } else if c == 'i' {
        assert(glyph_number(glyph_rows(c)) == 15170940932);
    } else if c == 'j' {
        assert(glyph_number(glyph_rows(c)) == 13491050498);
    } else if c == 'k' {
        assert(glyph_number(glyph_rows(c)) == 20024281616);
    } else if c == 'l' {
        assert(glyph_number(glyph_rows(c)) == 15170932876);
    } else if c == 'm' {
        assert(glyph_number(glyph_rows(c)) == 18846771200);
    } else if c == 'n' {
        assert(glyph_number(glyph_rows(c)) == 18842449920);
    } else if c == 'o' {
        assert(glyph_number(glyph_rows(c)) == 15621208064);
    } else if c == 'p' {
        assert(glyph_number(glyph_rows(c)) == 17748772800);
    } else if c == 'q' {
        assert(glyph_number(glyph_rows(c)) == 1123599840);
    } else if c == 'r' {
        assert(glyph_number(glyph_rows(c)) == 17734359040);
    } else if c == 's' {
        assert(glyph_number(glyph_rows(c)) == 32261028864);
    } else if c == 't' {
        assert(glyph_number(glyph_rows(c)) == 6753122568);
    } else if c == 'u' {
        assert(glyph_number(glyph_rows(c)) == 14614578176);
    } else if c == 'v' {
        assert(glyph_number(glyph_rows(c)) == 4648911872);
    } else if c == 'w' {
        assert(glyph_number(glyph_rows(c)) == 11666113536);
    } else if c == 'x' {
        assert(glyph_number(glyph_rows(c)) == 18593694720);
    } else if c == 'y' {
        assert(glyph_number(glyph_rows(c)) == 15067498016);
    } else if c == 'z' {
        assert(glyph_number(glyph_rows(c)) == 33558723584);
    } else if c == 'A' {
        assert(glyph_number(glyph_rows(c)) == 18842895918);
    } else if c == 'B' {
        assert(glyph_number(glyph_rows(c)) == 32801506878);
    } else if c == 'C' {
        assert(glyph_number(glyph_rows(c)) == 15620129326);
    } else if c == 'D' {
        assert(glyph_number(glyph_rows(c)) == 32801080894);
    } else if c == 'E' {
        assert(glyph_number(glyph_rows(c)) == 33840644639);
    } else if c == 'F' {
        assert(glyph_number(glyph_rows(c)) == 17734517279);
    } else if c == 'G' {
        assert(glyph_number(glyph_rows(c)) == 15621407278);
    } else if c == 'H' {
        assert(glyph_number(glyph_rows(c)) == 18842895921);
    } else if c == 'I' {
        assert(glyph_number(glyph_rows(c)) == 15170932878);
    } else if c == 'J' {
        assert(glyph_number(glyph_rows(c)) == 13491046471);
    } else if c == 'K' {
        assert(glyph_number(glyph_rows(c)) == 18879369809);
    } else if c == 'L' {
        assert(glyph_number(glyph_rows(c)) == 33840185872);
    } else if c == 'M' {
        assert(glyph_number(glyph_rows(c)) == 18842572657);
    } else if c == 'N' {
        assert(glyph_number(glyph_rows(c)) == 18842507057);
    } else if c == 'O' {
        assert(glyph_number(glyph_rows(c)) == 15621211694);
    } else if c == 'P' {
        assert(glyph_number(glyph_rows(c)) == 17734518334);
    } else if c == 'Q' {
        assert(glyph_number(glyph_rows(c)) == 14585218606);
    } else if c == 'R' {
        assert(glyph_number(glyph_rows(c)) == 18879563326);
    } else if c == 'S' {
        assert(glyph_number(glyph_rows(c)) == 15604335150);
    } else if c == 'T' {
        assert(glyph_number(glyph_rows(c)) == 4433514655);
    } else if c == 'U' {
        assert(glyph_number(glyph_rows(c)) == 15621211697);
    } else if c == 'V' {
        assert(glyph_number(glyph_rows(c)) == 4648912433);
    } else if c == 'W' {
        assert(glyph_number(glyph_rows(c)) == 19182306865);
    } else if c == 'X' {
        assert(glyph_number(glyph_rows(c)) == 18834663985);
    } else if c == 'Y' {
        assert(glyph_number(glyph_rows(c)) == 4433521201);
    } else if c == 'Z' {
        assert(glyph_number(glyph_rows(c)) == 33831389247);
    } else if c == '0' {
        assert(glyph_number(glyph_rows(c)) == 15629733422);
    } else if c == '1' {
        assert(glyph_number(glyph_rows(c)) == 15170933124);
    } else if c == '2' {
        assert(glyph_number(glyph_rows(c)) == 33831454254);
    } else if c == '3' {
        assert(glyph_number(glyph_rows(c)) == 15604057646);
    } else if c == '4' {
        assert(glyph_number(glyph_rows(c)) == 2247698626);
    } else if c == '5' {
        assert(glyph_number(glyph_rows(c)) == 15603923487);
    } else if c == '6' {
        assert(glyph_number(glyph_rows(c)) == 15621636622);
    } else if c == '7' {
        assert(glyph_number(glyph_rows(c)) == 8866891839);
    } else if c == '8' {
        assert(glyph_number(glyph_rows(c)) == 15621113390);
    } else if c == '9' {
        assert(glyph_number(glyph_rows(c)) == 15067498030);
    } else if c == ' ' {
        assert(glyph_number(glyph_rows(c)) == 0);
    } else if c == ':' {
        assert(glyph_number(glyph_rows(c)) == 138416256);
    } else if c == '?' {
        assert(glyph_number(glyph_rows(c)) == 4299359790);
    } else if c == '!' {
        assert(glyph_number(glyph_rows(c)) == 4299296900);
    } else if c == '-' {
        assert(glyph_number(glyph_rows(c)) == 1015808);
    } else if c == '/' {
        assert(glyph_number(glyph_rows(c)) == 17456826433);
    } else if c == '+' {
        assert(glyph_number(glyph_rows(c)) == 139432064);
    } else if c == '.' {
        assert(glyph_number(glyph_rows(c)) == 4294967296);
    } else if c == ',' {
        assert(glyph_number(glyph_rows(c)) == 8724152320);
    } else if c == '(' {
        assert(glyph_number(glyph_rows(c)) == 2290360450);
    } else if c == ')' {
        assert(glyph_number(glyph_rows(c)) == 8726317192);
    } else if c == '&' {
        assert(glyph_number(glyph_rows(c)) == 14580789836);
    } else if c == '*' {
        assert(glyph_number(glyph_rows(c)) == 720353952);
    } else if c == '%' {
        assert(glyph_number(glyph_rows(c)) == 649335641);
    } else if c == '[' {
        assert(glyph_number(glyph_rows(c)) == 15309480206);
    } else if c == ']' {
        assert(glyph_number(glyph_rows(c)) == 15101659214);
    } else if c == '<' {
        assert(glyph_number(glyph_rows(c)) == 2290622594);
    } else if c == '>' {
        assert(glyph_number(glyph_rows(c)) == 8726284424);
    }
}

/// No two characters share a glyph: every character the font draws can be told
/// apart from every other one on screen.
pub proof fn lemma_glyphs_distinct(a: char, b: char)
    requires
        spec_glyph(a) is Some,
        a != b,
    ensures
        spec_glyph(b) != spec_glyph(a),
{
    lemma_glyph_read_back(a);
    if spec_glyph(b) == spec_glyph(a) {
        lemma_glyph_read_back(b);
    }
}

} // verus!
