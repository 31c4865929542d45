//! The monospaced fonts that text is drawn in, and the width of their glyphs.
use vstd::prelude::*;

use crate::geometry::Colour;

verus! {

/// A monospaced font.
#[derive(Clone, Copy, Debug, PartialEq, Eq, Structural)]
pub enum Font {
    /// embedded-graphics' ASCII font with 10 by 20 pixel glyphs.
    Ascii10x20,
    /// embedded-graphics' ISO 8859-16 font with 10 by 20 pixel glyphs.
    Latin10x20,
    /// The IBM code page 437 font with 9 by 14 pixel glyphs.
    Ibm437Regular9x14,
}

/// How text is drawn: a font and a colour.
#[derive(Clone, Copy, Debug, PartialEq, Eq, Structural)]
pub struct TextStyle {
    pub font: Font,
    pub colour: Colour,
}

/// The width of one glyph of `font`, in pixels.
pub open spec fn glyph_width(font: Font) -> u32 {
    match font {
        Font::Ascii10x20 => 10,
        Font::Latin10x20 => 10,
        Font::Ibm437Regular9x14 => 9,
    }
}

impl TextStyle {
    pub fn new(font: Font, colour: Colour) -> (r: TextStyle)
        ensures
            r.font == font,
            r.colour == colour,
    {
        TextStyle { font, colour }
    }
}

impl Font {
    /// The width of one glyph, in pixels.
    pub fn character_width(&self) -> (r: u32)
        ensures
            r == glyph_width(*self),
    {
        match self {
            Font::Ascii10x20 => ascii_10x20_width(),
            Font::Latin10x20 => latin_10x20_width(),
            Font::Ibm437Regular9x14 => ibm437_9x14_width(),
        }
    }
}

/// Relies on embedded_graphics::mono_font::ascii::FONT_10X20, whose
/// `character_size` is 10 by 20.
#[verifier::external_body]
fn ascii_10x20_width() -> (r: u32)
    ensures
        r == 10,
{
    embedded_graphics::mono_font::ascii::FONT_10X20.character_size.width
}

/// Relies on embedded_graphics::mono_font::iso_8859_16::FONT_10X20, whose
/// `character_size` is 10 by 20.
#[verifier::external_body]
fn latin_10x20_width() -> (r: u32)
    ensures
        r == 10,
{
    embedded_graphics::mono_font::iso_8859_16::FONT_10X20.character_size.width
}

/// Relies on ibm437::IBM437_9X14_REGULAR, whose `character_size` is 9 by 14.
#[verifier::external_body]
fn ibm437_9x14_width() -> (r: u32)
    ensures
        r == 9,
{
    ibm437::IBM437_9X14_REGULAR.character_size.width
}

} // verus!
