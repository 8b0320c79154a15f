//! The 256-glyph bitmap font atlas and its glyph-grid composition.
//!
//! A font file is exactly 256 uncompressed glyph records, each a
//! width/height header followed by `width * height` raw grayscale bytes;
//! trailing bytes are a decode error, and every glyph must share the
//! dimensions of the first. Glyph pixels are stored width-major: the pixel
//! at local `(x, y)` sits at flat offset `x * width + y`. That layout, and
//! the transposed grid placement of [`generate_image`], look accidental
//! but are what the asset format's known-good rendering does, and they
//! are preserved deliberately so output stays compatible bit for bit.
use crate::bytes::{le16_at, read_bytes, read_u16};
use crate::palette::Rgb;
use crate::raster::{lemma_block_index, Raster};
use crate::DecodeError;
use vstd::arithmetic::div_mod::lemma_fundamental_div_mod_converse;
use vstd::prelude::*;

verus! {

/// The ghost value of one decoded glyph.
pub ghost struct SpecGlyph {
    pub width: u16,
    pub height: u16,
    pub pixels: Seq<u8>,
}

/// One glyph: direct grayscale intensities (not palette indices), stored
/// width-major; `pixels.len() == width * height`.
pub struct Glyph {
    pub width: u16,
    pub height: u16,
    pub pixels: Vec<u8>,
}

impl View for Glyph {
    type V = SpecGlyph;

    open spec fn view(&self) -> SpecGlyph {
        SpecGlyph { width: self.width, height: self.height, pixels: self.pixels@ }
    }
}

impl Glyph {
    /// A glyph holds exactly one byte per coordinate.
    pub open spec fn wf(&self) -> bool {
        self.pixels@.len() == self.width * self.height
    }
}

/// What parsing one glyph record at `pos` yields: width, height, then
/// `width * height` raw pixel bytes.
pub open spec fn spec_parse_glyph(s: Seq<u8>, pos: int) -> Result<(SpecGlyph, int), DecodeError> {
    if pos + 4 > s.len() {
        Err(DecodeError::Truncated)
    } else {
        let w = le16_at(s, pos);
        let h = le16_at(s, pos + 2);
        if pos + 4 + w * h > s.len() {
            Err(DecodeError::Truncated)
        } else {
            Ok(
                (
                    SpecGlyph {
                        width: w as u16,
                        height: h as u16,
                        pixels: s.subrange(pos + 4, pos + 4 + w * h),
                    },
                    pos + 4 + w * h,
                ),
            )
        }
    }
}

/// `n` consecutive glyph records starting at `pos`.
pub open spec fn spec_parse_glyphs(s: Seq<u8>, pos: int, n: nat) -> Result<
    (Seq<SpecGlyph>, int),
    DecodeError,
>
    decreases n,
{
    if n == 0 {
        Ok((Seq::empty(), pos))
    } else {
        match spec_parse_glyph(s, pos) {
            Err(e) => Err(e),
            Ok((g, p)) => match spec_parse_glyphs(s, p, (n - 1) as nat) {
                Err(e) => Err(e),
                Ok((gs, end)) => Ok((seq![g] + gs, end)),
            },
        }
    }
}

/// All glyphs share the dimensions of glyph 0.
pub open spec fn uniform_glyphs(gs: Seq<SpecGlyph>) -> bool {
    forall|i: int|
        0 <= i < gs.len() ==> (#[trigger] gs[i]).width == gs[0].width && gs[i].height
            == gs[0].height
}

/// The ghost value of a decoded font atlas.
pub ghost struct SpecFont {
    pub glyph_width: u32,
    pub glyph_height: u32,
    pub glyphs: Seq<SpecGlyph>,
}

/// What parsing a whole font atlas yields: exactly 256 glyph records with
/// no trailing bytes, all sharing one width and height.
pub open spec fn spec_parse_font(s: Seq<u8>) -> Result<SpecFont, DecodeError> {
    match spec_parse_glyphs(s, 0, 256) {
        Err(e) => Err(e),
        Ok((gs, end)) => if end != s.len() {
            Err(DecodeError::Invalid)
        } else if !uniform_glyphs(gs) {
            Err(DecodeError::Invalid)
        } else {
            Ok(
                SpecFont {
                    glyph_width: gs[0].width as u32,
                    glyph_height: gs[0].height as u32,
                    glyphs: gs,
                },
            )
        },
    }
}

/// A decoded font atlas: 256 glyphs sharing one width and height,
/// logically a 16 by 16 grid.
pub struct Font {
    pub glyph_width: u32,
    pub glyph_height: u32,
    pub glyphs: Vec<Glyph>,
}

/// The ghost values of a sequence of glyphs.
pub open spec fn glyph_views(gs: Seq<Glyph>) -> Seq<SpecGlyph> {
    gs.map_values(|g: Glyph| g@)
}

impl View for Font {
    type V = SpecFont;

    open spec fn view(&self) -> SpecFont {
        SpecFont {
            glyph_width: self.glyph_width,
            glyph_height: self.glyph_height,
            glyphs: glyph_views(self.glyphs@),
        }
    }
}

impl Font {
    /// A font holds 256 glyphs, each of the shared dimensions, each with
    /// one byte per coordinate.
    pub open spec fn wf(&self) -> bool {
        &&& self.glyphs@.len() == 256
        &&& self.glyph_width <= 0xFFFF
        &&& self.glyph_height <= 0xFFFF
        &&& forall|i: int|
            0 <= i < 256 ==> (#[trigger] self.glyphs@[i]).width == self.glyph_width
                && self.glyphs@[i].height == self.glyph_height && self.glyphs@[i].pixels@.len()
                == self.glyph_width * self.glyph_height
    }

    /// The atlas always holds 256 glyphs.
    pub fn num_glyphs(&self) -> (n: usize)
        ensures
            n == 256,
    {
        256
    }

    /// The grayscale value of glyph `glyph` at local `(x, y)`, or `None`
    /// for any out-of-range glyph index or coordinate. Glyph pixels are
    /// width-major: local `(x, y)` sits at flat offset `x * width + y`.
    pub fn glyph_pixel(&self, glyph: usize, x: u32, y: u32) -> (r: Option<u8>)
        requires
            self.wf(),
        ensures
            ({
                let within = glyph < 256 && x < self.glyph_width && y < self.glyph_height && x
                    * self.glyph_width + y < self.glyph_width * self.glyph_height;
                match r {
                    Some(p) => within && p == self.glyphs@[glyph as int].pixels@[x
                        * self.glyph_width + y],
                    None => !within,
                }
            }),
    {
        if glyph < self.num_glyphs() && x < self.glyph_width && y < self.glyph_height {
            proof {
                assert(x * self.glyph_width + y < 0x1_0000_0000) by (nonlinear_arith)
                    requires
                        x < self.glyph_width,
                        self.glyph_width <= 0xFFFF,
                        y <= 0xFFFF,
                ;
            }
            let idx_wide: u64 = (x as u64) * (self.glyph_width as u64) + (y as u64);
            let len = self.glyphs[glyph].pixels.len();
            if idx_wide < len as u64 {
                Some(self.glyphs[glyph].pixels[idx_wide as usize])
            } else {
                None
            }
        } else {
            None
        }
    }
}

/// Decode a font atlas from `input`, consuming the whole buffer.
#[verifier::loop_isolation(false)]
pub fn parse_font(input: &[u8]) -> (r: Result<Font, DecodeError>)
    ensures
        match (r, spec_parse_font(input@)) {
            (Ok(f), Ok(s)) => f@ == s && f.wf(),
            (Err(e1), Err(e2)) => e1 == e2,
            _ => false,
        },
{
    let mut glyphs: Vec<Glyph> = Vec::new();
    let mut pos: usize = 0;
    let mut i: usize = 0;
    while i < 256
        invariant
            i <= 256,
            pos <= input@.len(),
            glyphs@.len() == i,
            forall|j: int| 0 <= j < i ==> (#[trigger] glyphs@[j]).wf(),
            match spec_parse_glyphs(input@, pos as int, (256 - i) as nat) {
                Ok(t) => spec_parse_glyphs(input@, 0, 256) == Ok::<_, DecodeError>(
                    (glyph_views(glyphs@) + t.0, t.1),
                ),
                Err(e) => spec_parse_glyphs(input@, 0, 256) == Err::<(Seq<SpecGlyph>, int), _>(e),
            },
        decreases 256 - i,
    {
        let (g, p) = match parse_glyph(input, pos) {
            Ok(t) => t,
            Err(e) => { return Err(e) },
        };
        proof {
            let ghost rest = spec_parse_glyphs(input@, p as int, (256 - i - 1) as nat);
            if rest is Ok {
                assert(glyph_views(glyphs@) + (seq![g@] + rest->Ok_0.0) =~= glyph_views(
                    glyphs@.push(g),
                ) + rest->Ok_0.0);
            }
        }
        glyphs.push(g);
        pos = p;
        i += 1;
    }
    if pos != input.len() {
        return Err(DecodeError::Invalid);
    }
    proof {
        assert(glyph_views(glyphs@) + Seq::<SpecGlyph>::empty() =~= glyph_views(glyphs@));
    }
    let gw = {
        let g0 = &glyphs[0];
        g0.width
    };
    let gh = {
        let g0 = &glyphs[0];
        g0.height
    };
    proof {
        assert(glyph_views(glyphs@)[0] == glyphs@[0]@);
    }
    let mut j: usize = 0;
    while j < 256
        invariant
            j <= 256,
            glyphs@.len() == 256,
            gw == glyph_views(glyphs@)[0].width,
            gh == glyph_views(glyphs@)[0].height,
            forall|t: int|
                0 <= t < j ==> (#[trigger] glyphs@[t]).width == gw && glyphs@[t].height == gh,
        decreases 256 - j,
    {
        let same = {
            let gj = &glyphs[j];
            gj.width == gw && gj.height == gh
        };
        if !same {
            proof {
                assert(glyph_views(glyphs@)[j as int] == glyphs@[j as int]@);
                assert(!uniform_glyphs(glyph_views(glyphs@)));
            }
            return Err(DecodeError::Invalid);
        }
        j += 1;
    }
    proof {
        assert forall|t: int| 0 <= t < 256 implies (#[trigger] glyph_views(glyphs@)[t]).width == gw
            && glyph_views(glyphs@)[t].height == gh by {
            assert(glyph_views(glyphs@)[t] == glyphs@[t]@);
        }
        assert(uniform_glyphs(glyph_views(glyphs@)));
    }
    Ok(Font { glyph_width: gw as u32, glyph_height: gh as u32, glyphs })
}

/// Decode one glyph record.
fn parse_glyph(input: &[u8], pos: usize) -> (r: Result<(Glyph, usize), DecodeError>)
    requires
        pos <= input@.len(),
    ensures
        match (r, spec_parse_glyph(input@, pos as int)) {
            (Ok((g, end)), Ok(s)) => g@ == s.0 && g.wf() && end == s.1 && end <= input@.len(),
            (Err(e1), Err(e2)) => e1 == e2,
            _ => false,
        },
{
    let (width, p1) = match read_u16(input, pos) {
        Ok(t) => t,
        Err(e) => { return Err(e) },
    };
    let (height, p2) = match read_u16(input, p1) {
        Ok(t) => t,
        Err(e) => { return Err(e) },
    };
    proof {
        assert(width * height <= 0xFFFF * 0xFFFF) by (nonlinear_arith)
            requires
                width <= 0xFFFF,
                height <= 0xFFFF,
        ;
    }
    let count = (width as usize) * (height as usize);
    let (pixels, p3) = match read_bytes(input, p2, count) {
        Ok(t) => t,
        Err(e) => { return Err(e) },
    };
    Ok((Glyph { width, height, pixels }, p3))
}

/// A grayscale value as an RGB pixel.
pub open spec fn gray(v: u8) -> Rgb {
    Rgb { r: v, g: v, b: v }
}

/// The value of the glyph-grid raster at column `xx`, row `yy`, for a font
/// of square glyph size `g`: the glyph with index `(yy / g) * 16 + xx / g`
/// supplies its width-major byte at offset `(yy % g) * g + xx % g`.
pub open spec fn spec_grid_pixel(f: SpecFont, xx: int, yy: int) -> u8 {
    let g = f.glyph_width as int;
    f.glyphs[(yy / g) * 16 + xx / g].pixels[(yy % g) * g + xx % g]
}

/// The glyph-grid raster of a square-glyph font: 16 glyph cells on each
/// side. The placement is the original pipeline's, where the glyph with
/// index `gx * 16 + gy` fills the cell in column block `gy` and row block
/// `gx`, transposed relative to index order.
pub open spec fn spec_font_raster(f: SpecFont) -> Seq<Rgb> {
    let w = 16 * f.glyph_width as int;
    Seq::new((w * w) as nat, |i: int| gray(spec_grid_pixel(f, i % w, i / w)))
}

/// Compose the 16 by 16 glyph grid of a square-glyph font into one
/// grayscale raster, each intensity `v` written as the RGB pixel
/// `(v, v, v)`, keeping the width-major glyph indexing and transposed
/// grid placement of [`spec_font_raster`]. Only square glyphs have a
/// coherent grid under that placement, hence the requirement.
#[verifier::loop_isolation(false)]
pub fn generate_image(font: &Font) -> (r: Raster)
    requires
        font.wf(),
        font.glyph_width == font.glyph_height,
    ensures
        r.width == 16 * font.glyph_width,
        r.height == 16 * font.glyph_height,
        r.wf(),
        r@ == spec_font_raster(font@),
{
    let g = font.glyph_width;
    let w: u32 = 16 * g;
    let mut pixels: Vec<Rgb> = Vec::new();
    let mut yy: u32 = 0;
    while yy < w
        invariant
            yy <= w,
            pixels@.len() == yy * w,
            forall|t: int| 0 <= t < pixels@.len() ==> pixels@[t] == spec_font_raster(font@)[t],
        decreases w - yy,
    {
        let mut xx: u32 = 0;
        while xx < w
            invariant
                xx <= w,
                pixels@.len() == yy * w + xx,
                forall|t: int| 0 <= t < pixels@.len() ==> pixels@[t] == spec_font_raster(font@)[t],
            decreases w - xx,
        {
            proof {
                lemma_block_index(yy as int, g as int, 16);
                lemma_block_index(xx as int, g as int, 16);
                assert((yy % g) * g + xx % g < g * g && g * g <= 0xFFFF * 0xFFFF)
                    by (nonlinear_arith)
                    requires
                        0 <= yy % g < g,
                        0 <= xx % g < g,
                        g <= 0xFFFF,
                ;
            }
            let gi = (yy / g) * 16 + xx / g;
            let off = (yy % g) * g + xx % g;
            proof {
                assert(font@.glyphs[gi as int] == font.glyphs@[gi as int]@);
                assert(yy * w + xx < w * w) by (nonlinear_arith)
                    requires
                        0 <= yy < w,
                        0 <= xx < w,
                ;
                lemma_fundamental_div_mod_converse(
                    yy * w + xx,
                    w as int,
                    yy as int,
                    xx as int,
                );
            }
            let v = {
                let glyph = &font.glyphs[gi as usize];
                glyph.pixels[off as usize]
            };
            pixels.push(Rgb { r: v, g: v, b: v });
            xx += 1;
        }
        proof {
            assert((yy + 1) * w == yy * w + w) by (nonlinear_arith);
        }
        yy += 1;
    }
    proof {
        assert(pixels@ =~= spec_font_raster(font@));
    }
    Raster { width: w, height: w, pixels }
}

/// Decode a font atlas from a whole input buffer, as the conversion
/// pipeline does, dropping the distinction between failure causes.
pub fn load_font(data: &[u8]) -> (r: Option<Font>)
    ensures
        match r {
            Some(f) => spec_parse_font(data@) == Ok::<_, DecodeError>(f@) && f.wf(),
            None => spec_parse_font(data@) is Err,
        },
{
    match parse_font(data) {
        Ok(f) => Some(f),
        Err(_) => None,
    }
}

} // verus!
