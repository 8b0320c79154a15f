//! The 256-entry RGB palette through which every indexed pixel is colored.
//!
//! A palette is 768 bytes: 256 triples in R,G,B order. When the source
//! stores 6-bit components they are rescaled to 8 bits by an unchecked
//! multiply by four, matching the source format's assumption that such
//! components never exceed 63.
use crate::DecodeError;
use vstd::prelude::*;

verus! {

/// One RGB color, channels 0-255.
#[derive(Clone, Copy, Debug, PartialEq, Eq, Structural)]
pub struct Rgb {
    pub r: u8,
    pub g: u8,
    pub b: u8,
}

/// A 6-bit component scaled to 8 bits: an unchecked multiply by four that
/// wraps on the components above 63 that the source format never stores.
pub open spec fn scale6(v: u8) -> u8 {
    ((v * 4) % 0x100) as u8
}

/// A color component as stored at offset `i`, optionally rescaled.
pub open spec fn component_at(s: Seq<u8>, i: int, to_8bit: bool) -> u8 {
    if to_8bit {
        scale6(s[i])
    } else {
        s[i]
    }
}

/// The palette entry stored as three bytes at offset `i`, in R,G,B order.
pub open spec fn rgb_at(s: Seq<u8>, i: int, to_8bit: bool) -> Rgb {
    Rgb {
        r: component_at(s, i, to_8bit),
        g: component_at(s, i + 1, to_8bit),
        b: component_at(s, i + 2, to_8bit),
    }
}

/// The 256 palette entries stored at offset `pos` of `s`.
pub open spec fn spec_palette(s: Seq<u8>, pos: int, to_8bit: bool) -> Seq<Rgb> {
    Seq::new(256, |k: int| rgb_at(s, pos + 3 * k, to_8bit))
}

/// A fixed table of exactly 256 RGB entries, addressed by a raw color
/// index; immutable once decoded.
pub struct Palette {
    pub entries: Vec<Rgb>,
}

impl View for Palette {
    type V = Seq<Rgb>;

    open spec fn view(&self) -> Seq<Rgb> {
        self.entries@
    }
}

impl Palette {
    /// A palette holds one entry for every 8-bit color index.
    pub open spec fn wf(&self) -> bool {
        self.entries@.len() == 256
    }

    /// Look one color up by its raw index.
    pub fn get(&self, color_index: u8) -> (c: Rgb)
        requires
            self.wf(),
        ensures
            c == self@[color_index as int],
    {
        self.entries[color_index as usize]
    }
}

/// Apply the optional 6-to-8-bit rescale to one component.
fn scale_component(v: u8, to_8bit: bool) -> (r: u8)
    ensures
        r == if to_8bit {
            scale6(v)
        } else {
            v
        },
{
    if to_8bit {
        ((v as u32 * 4) % 0x100) as u8
    } else {
        v
    }
}

/// Decode a 256-entry palette from the 768 bytes at `pos`, each component
/// rescaled from 6 to 8 bits when `to_8bit` is set.
pub fn parse_palette(input: &[u8], pos: usize, to_8bit: bool) -> (r: Result<
    (Palette, usize),
    DecodeError,
>)
    requires
        pos <= input@.len(),
    ensures
        match r {
            Ok((p, end)) => pos + 768 <= input@.len() && p.wf() && p@ == spec_palette(
                input@,
                pos as int,
                to_8bit,
            ) && end == pos + 768,
            Err(e) => pos + 768 > input@.len() && e == DecodeError::Truncated,
        },
{
    let n = input.len();
    if n - pos < 768 {
        return Err(DecodeError::Truncated);
    }
    let mut entries: Vec<Rgb> = Vec::new();
    let mut k: usize = 0;
    while k < 256
        invariant
            k <= 256,
            pos + 768 <= n,
            n == input@.len(),
            entries@.len() == k,
            forall|j: int| 0 <= j < k ==> entries@[j] == rgb_at(input@, pos + 3 * j, to_8bit),
        decreases 256 - k,
    {
        let base = pos + 3 * k;
        let red = scale_component(input[base], to_8bit);
        let green = scale_component(input[base + 1], to_8bit);
        let blue = scale_component(input[base + 2], to_8bit);
        entries.push(Rgb { r: red, g: green, b: blue });
        k += 1;
    }
    proof {
        assert(entries@ =~= spec_palette(input@, pos as int, to_8bit));
    }
    Ok((Palette { entries }, pos + 768))
}

} // verus!
