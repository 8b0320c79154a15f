//! Decoders for the binary asset formats of a DOS-era game: an RLE codec,
//! a 256-entry RGB palette, RLE-compressed indexed images, a 256-glyph
//! bitmap font atlas, a ship sprite archive and a level container, together
//! with the composition of decoded assets into plain RGB rasters.
//!
//! Every decoder is a pure function over an in-memory byte buffer: it either
//! returns a fully decoded value or a [`DecodeError`], never a partial one.
//! Reading files and encoding rasters to image files is left to callers.
use vstd::prelude::*;

pub mod bytes;
pub mod font;
pub mod image;
pub mod level;
pub mod palette;
pub mod raster;
pub mod rle;
pub mod ship;

verus! {

/// Why a decode failed.
///
/// `Truncated`: the input ended before a fixed-size field or a declared
/// length could be read (including a run marker with no value byte after it).
///
/// `Invalid`: the bytes parsed but were structurally inconsistent — a wrong
/// magic tag, mismatched dimensions across a glyph or frame set, a decoded
/// pixel count that does not match the declared width and height, or
/// trailing bytes where exact consumption is required.
#[derive(Clone, Copy, Debug, PartialEq, Eq, Structural)]
pub enum DecodeError {
    Truncated,
    Invalid,
}

} // verus!
