//! The ship sprite archive and its frame-strip composition.
//!
//! A ship file is a magic-tagged container: the 4-byte tag `WSHP`, four
//! reserved bytes, a length-prefixed name decoded lossily as UTF-8, seven
//! little-endian 32-bit properties, then exactly 72 indexed images with no
//! trailing bytes permitted. All 72 frames must share one width and
//! height.
use crate::bytes::{le32_at, read_bytes, read_u32};
use crate::image::{spec_parse_image, Image, SpecImage};
use crate::palette::{Palette, Rgb};
use crate::raster::{lemma_block_index, Raster};
use crate::DecodeError;
use vstd::arithmetic::div_mod::lemma_fundamental_div_mod_converse;
use vstd::prelude::*;

verus! {

/// The ship container's magic tag: the ASCII bytes of `WSHP`.
pub open spec fn magic_bytes() -> Seq<u8> {
    seq![0x57u8, 0x53u8, 0x48u8, 0x50u8]
}

/// What `String::from_utf8_lossy` decodes the given bytes to: a pure
/// function of the bytes alone.
pub uninterp spec fn utf8_lossy(bytes: Seq<u8>) -> Seq<char>;

/// Relies on `String::from_utf8_lossy`: the decoding depends on the bytes
/// alone, replacing invalid UTF-8 sequences and never failing.
#[verifier::external_body]
fn utf8_lossy_decode(bytes: &[u8]) -> (r: String)
    ensures
        r@ == utf8_lossy(bytes@),
{
    String::from_utf8_lossy(bytes).to_string()
}

/// The ghost value of a decoded ship archive.
pub ghost struct SpecShip {
    pub name: Seq<char>,
    pub properties: Seq<u32>,
    pub images: Seq<SpecImage>,
}

/// All frames share the dimensions of frame 0.
pub open spec fn uniform_images(imgs: Seq<SpecImage>) -> bool {
    forall|i: int|
        0 <= i < imgs.len() ==> (#[trigger] imgs[i]).width == imgs[0].width && imgs[i].height
            == imgs[0].height
}

/// `n` consecutive indexed images starting at `pos`.
pub open spec fn spec_parse_images(s: Seq<u8>, pos: int, n: nat) -> Result<
    (Seq<SpecImage>, int),
    DecodeError,
>
    decreases n,
{
    if n == 0 {
        Ok((Seq::empty(), pos))
    } else {
        match spec_parse_image(s, pos) {
            Err(e) => Err(e),
            Ok((im, p)) => match spec_parse_images(s, p, (n - 1) as nat) {
                Err(e) => Err(e),
                Ok((imgs, end)) => Ok((seq![im] + imgs, end)),
            },
        }
    }
}

/// What parsing a ship archive yields: the `WSHP` magic checked before
/// anything further is consumed, four reserved bytes, the name, seven
/// properties, then exactly 72 frames with no trailing bytes, all frames
/// sharing one width and height.
pub open spec fn spec_parse_ship(s: Seq<u8>) -> Result<SpecShip, DecodeError> {
    if s.len() < 4 {
        Err(DecodeError::Truncated)
    } else if s.subrange(0, 4) != magic_bytes() {
        Err(DecodeError::Invalid)
    } else if s.len() < 12 {
        Err(DecodeError::Truncated)
    } else {
        let name_len = le32_at(s, 8);
        if 12 + name_len > s.len() {
            Err(DecodeError::Truncated)
        } else {
            let name = utf8_lossy(s.subrange(12, 12 + name_len));
            let p = 12 + name_len;
            if p + 28 > s.len() {
                Err(DecodeError::Truncated)
            } else {
                let props = Seq::new(7, |i: int| le32_at(s, p + 4 * i) as u32);
                match spec_parse_images(s, p + 28, 72) {
                    Err(e) => Err(e),
                    Ok((imgs, end)) => if end != s.len() {
                        Err(DecodeError::Invalid)
                    } else if !uniform_images(imgs) {
                        Err(DecodeError::Invalid)
                    } else {
                        Ok(SpecShip { name, properties: props, images: imgs })
                    },
                }
            }
        }
    }
}

/// A decoded ship archive: display name, seven numeric properties, and 72
/// animation frames sharing one width and height.
pub struct Ship {
    pub name: String,
    pub properties: Vec<u32>,
    pub images: Vec<Image>,
}

/// The ghost values of a sequence of images.
pub open spec fn image_views(imgs: Seq<Image>) -> Seq<SpecImage> {
    imgs.map_values(|im: Image| im@)
}

impl View for Ship {
    type V = SpecShip;

    open spec fn view(&self) -> SpecShip {
        SpecShip {
            name: self.name@,
            properties: self.properties@,
            images: image_views(self.images@),
        }
    }
}

impl Ship {
    /// A ship holds seven properties and 72 frames of one shared size,
    /// each frame with one palette index per coordinate.
    pub open spec fn wf(&self) -> bool {
        &&& self.properties@.len() == 7
        &&& self.images@.len() == 72
        &&& forall|i: int|
            0 <= i < 72 ==> (#[trigger] self.images@[i]).wf() && self.images@[i].width
                == self.images@[0].width && self.images@[i].height == self.images@[0].height
    }
}

/// Decode a ship archive from `input`, consuming the whole buffer.
#[verifier::loop_isolation(false)]
pub fn parse_ship(input: &[u8]) -> (r: Result<Ship, DecodeError>)
    ensures
        match (r, spec_parse_ship(input@)) {
            (Ok(ship), Ok(s)) => ship@ == s && ship.wf(),
            (Err(e1), Err(e2)) => e1 == e2,
            _ => false,
        },
{
    if input.len() < 4 {
        return Err(DecodeError::Truncated);
    }
    let magic_ok = input[0] == 0x57 && input[1] == 0x53 && input[2] == 0x48 && input[3] == 0x50;
    proof {
        if magic_ok {
            assert(input@.subrange(0, 4) =~= magic_bytes());
        } else {
            assert(input@.subrange(0, 4) != magic_bytes()) by {
                let m = input@.subrange(0, 4);
                assert(m[0] == input@[0] && m[1] == input@[1] && m[2] == input@[2] && m[3]
                    == input@[3]);
            }
        }
    }
    if !magic_ok {
        return Err(DecodeError::Invalid);
    }
    if input.len() < 8 {
        return Err(DecodeError::Truncated);
    }
    let (name_len, p0) = match read_u32(input, 8) {
        Ok(t) => t,
        Err(e) => { return Err(e) },
    };
    let (name_bytes, p1) = match read_bytes(input, p0, name_len as usize) {
        Ok(t) => t,
        Err(e) => { return Err(e) },
    };
    let name = utf8_lossy_decode(name_bytes.as_slice());
    let mut properties: Vec<u32> = Vec::new();
    let mut pos: usize = p1;
    let mut k: usize = 0;
    while k < 7
        invariant
            k <= 7,
            pos == p1 + 4 * k,
            pos <= input@.len(),
            properties@.len() == k,
            forall|j: int| 0 <= j < k ==> properties@[j] == le32_at(input@, p1 + 4 * j) as u32,
        decreases 7 - k,
    {
        let (v, p) = match read_u32(input, pos) {
            Ok(t) => t,
            Err(e) => { return Err(e) },
        };
        properties.push(v);
        pos = p;
        k += 1;
    }
    proof {
        assert(properties@ =~= Seq::new(7, |i: int| le32_at(input@, p1 + 4 * i) as u32));
    }
    let mut images: Vec<Image> = Vec::new();
    let mut i: usize = 0;
    while i < 72
        invariant
            i <= 72,
            pos <= input@.len(),
            images@.len() == i,
            forall|j: int|
                0 <= j < i ==> (#[trigger] images@[j]).wf(),
            match spec_parse_images(input@, pos as int, (72 - i) as nat) {
                Ok(t) => spec_parse_images(input@, p1 + 28, 72) == Ok::<_, DecodeError>(
                    (image_views(images@) + t.0, t.1),
                ),
                Err(e) => spec_parse_images(input@, p1 + 28, 72) == Err::<(Seq<SpecImage>, int), _>(
                    e,
                ),
            },
        decreases 72 - i,
    {
        let (im, p) = match Image::parse(input, pos) {
            Ok(t) => t,
            Err(e) => { return Err(e) },
        };
        proof {
            let ghost rest = spec_parse_images(input@, p as int, (72 - i - 1) as nat);
            if rest is Ok {
                assert(image_views(images@) + (seq![im@] + rest->Ok_0.0) =~= image_views(
                    images@.push(im),
                ) + rest->Ok_0.0);
            }
        }
        images.push(im);
        pos = p;
        i += 1;
    }
    proof {
        assert(image_views(images@) + Seq::<SpecImage>::empty() =~= image_views(images@));
    }
    if pos != input.len() {
        return Err(DecodeError::Invalid);
    }
    let w0 = {
        let im0 = &images[0];
        im0.width
    };
    let h0 = {
        let im0 = &images[0];
        im0.height
    };
    proof {
        assert(image_views(images@)[0] == images@[0]@);
    }
    let mut j: usize = 0;
    while j < 72
        invariant
            j <= 72,
            forall|t: int|
                0 <= t < j ==> (#[trigger] images@[t]).width == w0 && images@[t].height == h0,
        decreases 72 - j,
    {
        let same = {
            let imj = &images[j];
            imj.width == w0 && imj.height == h0
        };
        if !same {
            proof {
                assert(image_views(images@)[j as int] == images@[j as int]@);
                assert(!uniform_images(image_views(images@)));
            }
            return Err(DecodeError::Invalid);
        }
        j += 1;
    }
    proof {
        assert forall|t: int| 0 <= t < 72 implies (#[trigger] image_views(images@)[t]).width == w0
            && image_views(images@)[t].height == h0 by {
            assert(image_views(images@)[t] == images@[t]@);
        }
        assert(uniform_images(image_views(images@)));
    }
    Ok(Ship { name, properties, images })
}

/// Decode a ship archive from a whole input buffer, as the conversion
/// pipeline does, dropping the distinction between failure causes.
pub fn load_ship(data: &[u8]) -> (r: Option<Ship>)
    ensures
        match r {
            Some(ship) => spec_parse_ship(data@) == Ok::<_, DecodeError>(ship@) && ship.wf(),
            None => spec_parse_ship(data@) is Err,
        },
{
    match parse_ship(data) {
        Ok(ship) => Some(ship),
        Err(_) => None,
    }
}

/// The frame-strip raster of a ship under `pal`: the 72 frames side by
/// side, left to right in archive order, each frame palette-mapped; the
/// strip is `72 * frame_width` wide and `frame_height` tall.
pub open spec fn spec_ship_raster(ship: SpecShip, pal: Seq<Rgb>) -> Seq<Rgb> {
    let fw = ship.images[0].width as int;
    let fh = ship.images[0].height as int;
    let w = 72 * fw;
    Seq::new(
        (w * fh) as nat,
        |i: int| pal[ship.images[i % w / fw].pixels[(i / w) * fw + (i % w) % fw] as int],
    )
}

/// Compose the 72 frames of a ship into one horizontal strip, each frame
/// independently mapped through `palette`.
#[verifier::loop_isolation(false)]
pub fn generate_image(ship: &Ship, palette: &Palette) -> (r: Raster)
    requires
        ship.wf(),
        palette.wf(),
    ensures
        r.width == 72 * ship@.images[0].width,
        r.height == ship@.images[0].height,
        r.wf(),
        r@ == spec_ship_raster(ship@, palette@),
{
    proof {
        assert(ship@.images[0] == ship.images@[0]@);
    }
    let fw: u32 = {
        let im0 = &ship.images[0];
        im0.width as u32
    };
    let fh: u32 = {
        let im0 = &ship.images[0];
        im0.height as u32
    };
    let w: u32 = 72 * fw;
    let mut pixels: Vec<Rgb> = Vec::new();
    let mut yy: u32 = 0;
    while yy < fh
        invariant
            yy <= fh,
            pixels@.len() == yy * w,
            forall|t: int|
                0 <= t < pixels@.len() ==> pixels@[t] == spec_ship_raster(ship@, palette@)[t],
        decreases fh - yy,
    {
        let mut xx: u32 = 0;
        while xx < w
            invariant
                xx <= w,
                pixels@.len() == yy * w + xx,
                forall|t: int|
                    0 <= t < pixels@.len() ==> pixels@[t] == spec_ship_raster(ship@, palette@)[t],
            decreases w - xx,
        {
            proof {
                lemma_block_index(xx as int, fw as int, 72);
                assert(yy * fw + xx % fw < fw * fh && fw * fh <= 0xFFFF * 0xFFFF)
                    by (nonlinear_arith)
                    requires
                        0 <= yy < fh,
                        0 <= xx % fw < fw,
                        fw <= 0xFFFF,
                        fh <= 0xFFFF,
                ;
            }
            let f = xx / fw;
            let off = yy * fw + xx % fw;
            proof {
                assert(ship@.images[f as int] == ship.images@[f as int]@);
                assert(yy * w + xx < w * fh) by (nonlinear_arith)
                    requires
                        0 <= yy < fh,
                        0 <= xx < w,
                ;
                lemma_fundamental_div_mod_converse(yy * w + xx, w as int, yy as int, xx as int);
            }
            let v = {
                let frame = &ship.images[f as usize];
                frame.pixels[off as usize]
            };
            pixels.push(palette.get(v));
            xx += 1;
        }
        proof {
            assert((yy + 1) * w == yy * w + w) by (nonlinear_arith);
        }
        yy += 1;
    }
    proof {
        assert(fh * w == w * fh) by (nonlinear_arith);
        assert(pixels@ =~= spec_ship_raster(ship@, palette@));
    }
    Raster { width: w, height: fh, pixels }
}

} // verus!
