use vstd::prelude::*;

verus! {

/// One RGBA color with 8-bit channels.
///
/// The host converts this to its own floating-point color type at the
/// rendering edge; the core only stores and hands colors through.
#[derive(Debug, Clone, Copy, PartialEq, Eq, Structural)]
pub struct Rgba {
    pub r: u8,
    pub g: u8,
    pub b: u8,
    pub a: u8,
}

/// Cell metrics of a loaded glyph atlas: the pixel width and height of one
/// character cell. The texture itself stays with the host.
#[derive(Debug, Clone, Copy, PartialEq, Eq, Structural)]
pub struct FontRecord {
    pub cell_width: u32,
    pub cell_height: u32,
}

/// A named bitmap font: a display name plus the atlas cell metrics.
///
/// The host owns the texture handle and pairs it with this record itself;
/// the core reads only the integer cell geometry.
#[derive(Debug)]
pub struct BdgFont {
    pub name: String,
    pub width: u32,
    pub height: u32,
}

/// Builds a font record for an atlas whose cells are `width` by `height`
/// pixels.
pub fn make_font(name: &str, width: u32, height: u32) -> (f: BdgFont)
    ensures
        f.name@ == name@,
        f.width == width,
        f.height == height,
{
    BdgFont { name: name.to_owned(), width, height }
}

} // verus!
