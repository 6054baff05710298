//! Interface colours for the light and dark schemes.
use vstd::prelude::*;

verus! {

/// An opaque colour by its red, green and blue channels.
#[derive(Debug, Clone, Copy, PartialEq, Eq, Structural)]
pub struct Rgb {
    pub r: u8,
    pub g: u8,
    pub b: u8,
}

/// Builds a colour.
pub fn rgb(r: u8, g: u8, b: u8) -> (c: Rgb)
    ensures
        c == (Rgb { r, g, b }),
{
    Rgb { r, g, b }
}

/// Window background.
pub fn get_bg_color(dark_mode: bool) -> (c: Rgb)
    ensures
        c == if dark_mode {
            Rgb { r: 0x0F, g: 0x17, b: 0x2A }
        } else {
            Rgb { r: 0xF8, g: 0xFA, b: 0xFC }
        },
{
    if dark_mode {
        rgb(0x0F, 0x17, 0x2A)
    } else {
        rgb(0xF8, 0xFA, 0xFC)
    }
}

/// Card background.
pub fn get_card_bg_color(dark_mode: bool) -> (c: Rgb)
    ensures
        c == if dark_mode {
            Rgb { r: 0x02, g: 0x06, b: 0x17 }
        } else {
            Rgb { r: 0xFF, g: 0xFF, b: 0xFF }
        },
{
    if dark_mode {
        rgb(0x02, 0x06, 0x17)
    } else {
        rgb(0xFF, 0xFF, 0xFF)
    }
}

/// Main text.
pub fn get_text_color(dark_mode: bool) -> (c: Rgb)
    ensures
        c == if dark_mode {
            Rgb { r: 0xF8, g: 0xFA, b: 0xFC }
        } else {
            Rgb { r: 0x0F, g: 0x17, b: 0x2A }
        },
{
    if dark_mode {
        rgb(0xF8, 0xFA, 0xFC)
    } else {
        rgb(0x0F, 0x17, 0x2A)
    }
}

/// Secondary text.
pub fn get_secondary_text_color(dark_mode: bool) -> (c: Rgb)
    ensures
        c == if dark_mode {
            Rgb { r: 0x94, g: 0xA1, b: 0xB8 }
        } else {
            Rgb { r: 0x64, g: 0x74, b: 0x8B }
        },
{
    if dark_mode {
        rgb(0x94, 0xA1, 0xB8)
    } else {
        rgb(0x64, 0x74, 0x8B)
    }
}

/// Borders.
pub fn get_border_color(dark_mode: bool) -> (c: Rgb)
    ensures
        c == if dark_mode {
            Rgb { r: 0x1F, g: 0x29, b: 0x37 }
        } else {
            Rgb { r: 0xE2, g: 0xE8, b: 0xF0 }
        },
{
    if dark_mode {
        rgb(0x1F, 0x29, 0x37)
    } else {
        rgb(0xE2, 0xE8, 0xF0)
    }
}

/// Success (green).
pub fn success_color() -> (c: Rgb)
    ensures
        c == (Rgb { r: 0x10, g: 0xB9, b: 0x81 }),
{
    rgb(0x10, 0xB9, 0x81)
}

/// Warning (amber).
pub fn warning_color() -> (c: Rgb)
    ensures
        c == (Rgb { r: 0xF5, g: 0x9E, b: 0x0B }),
{
    rgb(0xF5, 0x9E, 0x0B)
}

/// Danger (red).
pub fn danger_color() -> (c: Rgb)
    ensures
        c == (Rgb { r: 0xF4, g: 0x3F, b: 0x5E }),
{
    rgb(0xF4, 0x3F, 0x5E)
}

/// Accent (blue).
pub fn accent_color() -> (c: Rgb)
    ensures
        c == (Rgb { r: 0x3B, g: 0x82, b: 0xF6 }),
{
    rgb(0x3B, 0x82, 0xF6)
}

} // verus!
