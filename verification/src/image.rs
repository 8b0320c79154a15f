//! The RLE-compressed indexed bitmap shared by ships and levels.
//!
//! An image is a `width`/`height`/`compressed_length` header (all
//! little-endian) followed by exactly `compressed_length` bytes of RLE
//! stream. The decoded pixel count must equal `width * height`; that is
//! the sole cross-check that the stream was well-formed for its declared
//! dimensions. No assumption is made about run boundaries aligning with
//! row boundaries.
use crate::bytes::{le16_at, le32_at, read_u16, read_u32};
use crate::palette::{Palette, Rgb};
use crate::raster::Raster;
use crate::rle::{rle_decode, rle_spec};
use crate::DecodeError;
use vstd::prelude::*;
use vstd::slice::slice_subrange;

verus! {

/// The ghost value of a decoded indexed image.
pub ghost struct SpecImage {
    pub width: u16,
    pub height: u16,
    pub pixels: Seq<u8>,
}

impl SpecImage {
    /// An image holds exactly one palette index per coordinate.
    pub open spec fn wf(&self) -> bool {
        self.pixels.len() == self.width * self.height
    }
}

/// An indexed bitmap: every pixel is a palette index, row-major, origin
/// top-left; `pixels.len() == width * height`.
pub struct Image {
    pub width: u16,
    pub height: u16,
    pub pixels: Vec<u8>,
}

impl View for Image {
    type V = SpecImage;

    open spec fn view(&self) -> SpecImage {
        SpecImage { width: self.width, height: self.height, pixels: self.pixels@ }
    }
}

/// What parsing an indexed image at offset `pos` of `s` yields: the header,
/// then `compressed_length` bytes handed to the RLE codec, whose output
/// must hold exactly `width * height` pixels.
pub open spec fn spec_parse_image(s: Seq<u8>, pos: int) -> Result<(SpecImage, int), DecodeError> {
    if pos + 8 > s.len() {
        Err(DecodeError::Truncated)
    } else {
        let w = le16_at(s, pos);
        let h = le16_at(s, pos + 2);
        let n = le32_at(s, pos + 4);
        if pos + 8 + n > s.len() {
            Err(DecodeError::Truncated)
        } else {
            match rle_spec(s.subrange(pos + 8, pos + 8 + n)) {
                None => Err(DecodeError::Truncated),
                Some(pix) => if pix.len() == w * h {
                    Ok((SpecImage { width: w as u16, height: h as u16, pixels: pix }, pos + 8 + n))
                } else {
                    Err(DecodeError::Invalid)
                },
            }
        }
    }
}

/// The RGB raster of an indexed image under `pal`: every pixel is replaced
/// by the palette entry it names, in place.
pub open spec fn spec_indexed_raster(img: SpecImage, pal: Seq<Rgb>) -> Seq<Rgb> {
    img.pixels.map(|i: int, p: u8| pal[p as int])
}

impl Image {
    /// An image holds exactly one palette index per coordinate.
    pub open spec fn wf(&self) -> bool {
        self@.wf()
    }

    /// Decode one indexed image from `input` at `pos`, returning it with
    /// the position just past its compressed body.
    pub fn parse(input: &[u8], pos: usize) -> (r: Result<(Image, usize), DecodeError>)
        requires
            pos <= input@.len(),
        ensures
            match (r, spec_parse_image(input@, pos as int)) {
                (Ok((img, end)), Ok(s)) => img@ == s.0 && img.wf() && end == s.1 && end <= input@.len(),
                (Err(e1), Err(e2)) => e1 == e2,
                _ => false,
            },
    {
        let (width, p1) = match read_u16(input, pos) {
            Ok(t) => t,
            Err(e) => { return Err(e) },
        };
        let (height, p2) = match read_u16(input, p1) {
            Ok(t) => t,
            Err(e) => { return Err(e) },
        };
        let (data_len, p3) = match read_u32(input, p2) {
            Ok(t) => t,
            Err(e) => { return Err(e) },
        };
        let n = data_len as usize;
        if input.len() - p3 < n {
            return Err(DecodeError::Truncated);
        }
        let body = slice_subrange(input, p3, p3 + n);
        let pixels = match rle_decode(body) {
            Ok(v) => v,
            Err(e) => { return Err(e) },
        };
        proof {
            assert(width * height <= 0xFFFF * 0xFFFF) by (nonlinear_arith)
                requires
                    width <= 0xFFFF,
                    height <= 0xFFFF,
            ;
        }
        let expected = (width as usize) * (height as usize);
        if pixels.len() != expected {
            return Err(DecodeError::Invalid);
        }
        Ok((Image { width, height, pixels }, p3 + n))
    }

    /// Map every pixel through `palette`, producing an RGB raster of the
    /// same width and height.
    pub fn to_rgb_image(&self, palette: &Palette) -> (r: Raster)
        requires
            self.wf(),
            palette.wf(),
        ensures
            r.width == self.width,
            r.height == self.height,
            r.wf(),
            r@ == spec_indexed_raster(self@, palette@),
    {
        let total = self.pixels.len();
        let mut pixels: Vec<Rgb> = Vec::new();
        let mut i: usize = 0;
        while i < total
            invariant
                i <= total,
                total == self.pixels@.len(),
                palette.wf(),
                pixels@.len() == i,
                forall|j: int| 0 <= j < i ==> pixels@[j] == palette@[self.pixels@[j] as int],
            decreases total - i,
        {
            pixels.push(palette.get(self.pixels[i]));
            i += 1;
        }
        proof {
            assert(pixels@ =~= spec_indexed_raster(self@, palette@));
        }
        Raster { width: self.width as u32, height: self.height as u32, pixels }
    }
}

} // verus!
