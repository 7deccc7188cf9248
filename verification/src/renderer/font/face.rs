//! Rasterized glyphs, as a font face hands them out, and the errors of
//! loading a face.

use vstd::prelude::*;
use vstd::string::*;

use crate::config::Platform;

verus! {

/// The pixels of a rasterized glyph: coverage as RGB (for subpixel
/// rendering), or colors as RGBA (for color glyphs such as emoji).
#[derive(Debug, Clone)]
pub enum GlyphBuffer {
    Rgb(Vec<u8>),
    Rgba(Vec<u8>),
}

impl GlyphBuffer {
    /// The bytes of the buffer.
    pub open spec fn bytes(&self) -> Seq<u8> {
        match self {
            GlyphBuffer::Rgb(b) => b@,
            GlyphBuffer::Rgba(b) => b@,
        }
    }

    /// Whether the glyph has its own colors.
    pub fn is_colored(&self) -> (b: bool)
        ensures
            b == (*self is Rgba),
    {
        match self {
            GlyphBuffer::Rgba(_) => true,
            GlyphBuffer::Rgb(_) => false,
        }
    }

    /// Returns the bytes of the buffer.
    pub fn as_bytes(&self) -> (b: &[u8])
        ensures
            b@ == self.bytes(),
    {
        match self {
            GlyphBuffer::Rgb(b) => b.as_slice(),
            GlyphBuffer::Rgba(b) => b.as_slice(),
        }
    }
}

/// Coverage bytes spread to RGB: each byte three times.
pub open spec fn gray_spread(gray: Seq<u8>) -> Seq<u8> {
    Seq::new(3 * gray.len(), |i: int| gray[i / 3])
}

/// Turns a grayscale coverage bitmap into an RGB buffer of the same
/// coverage on each channel.
pub fn gray_to_rgb(gray: &[u8]) -> (b: GlyphBuffer)
    requires
        3 * gray@.len() <= usize::MAX,
    ensures
        b is Rgb,
        b.bytes() == gray_spread(gray@),
{
    let mut rgb: Vec<u8> = Vec::with_capacity(3 * gray.len());
    let mut i: usize = 0;
    while i < gray.len()
        invariant
            i <= gray@.len(),
            3 * gray@.len() <= usize::MAX,
            rgb@ == gray_spread(gray@.subrange(0, i as int)),
        decreases gray@.len() - i,
    {
        let byte = gray[i];
        rgb.push(byte);
        rgb.push(byte);
        rgb.push(byte);
        proof {
            assert(rgb@ =~= gray_spread(gray@.subrange(0, i + 1)));
        }
        i = i + 1;
    }
    assert(gray@.subrange(0, gray@.len() as int) =~= gray@);
    GlyphBuffer::Rgb(rgb)
}

/// The font family used where the settings name none: Menlo on macOS,
/// Consolas on Windows, and fontconfig's `monospace` elsewhere.
pub open spec fn default_family_of(platform: Platform) -> Seq<char> {
    match platform {
        Platform::MacOs => "Menlo"@,
        Platform::Windows => "Consolas"@,
        Platform::Other => "monospace"@,
    }
}

/// Returns the font family used on `platform` where the settings name none.
pub fn default_font_family(platform: Platform) -> (s: String)
    ensures
        s@ == default_family_of(platform),
{
    match platform {
        Platform::MacOs => String::from_str("Menlo"),
        Platform::Windows => String::from_str("Consolas"),
        Platform::Other => String::from_str("monospace"),
    }
}

/// A rasterized glyph with its placement relative to the pen position.
#[derive(Debug, Clone)]
pub struct RasterizedGlyph {
    pub character: char,
    pub width: u32,
    pub height: u32,
    pub bearing_x: i32,
    pub bearing_y: i32,
    pub buffer: GlyphBuffer,
}

/// Why a font face could not be made.
#[derive(Debug, Clone)]
pub enum FaceError {
    /// No font has this name.
    FontNotFound(String),
    /// The graphics context for rasterizing could not be made.
    ContextCreationFailed,
    /// The shaping face could not be made.
    HarfBuzzFaceCreation,
    /// A font table could not be copied.
    TableCopyFailed,
}

impl FaceError {
    /// The message that describes the error.
    pub open spec fn spec_message(&self) -> Seq<char> {
        match self {
            FaceError::FontNotFound(name) => "Failed to create font with name: "@ + name@,
            FaceError::ContextCreationFailed => "Failed to create graphics context"@,
            FaceError::HarfBuzzFaceCreation => "Failed to create HarfBuzz face"@,
            FaceError::TableCopyFailed => "Failed to copy font table"@,
        }
    }

    /// Returns the message that describes the error.
    pub fn message(&self) -> (s: String)
        ensures
            s@ == self.spec_message(),
    {
        match self {
            FaceError::FontNotFound(name) => {
                let s = String::from_str("Failed to create font with name: ");
                s.concat(name.as_str())
            },
            FaceError::ContextCreationFailed => String::from_str("Failed to create graphics context"),
            FaceError::HarfBuzzFaceCreation => String::from_str("Failed to create HarfBuzz face"),
            FaceError::TableCopyFailed => String::from_str("Failed to copy font table"),
        }
    }
}

} // verus!
