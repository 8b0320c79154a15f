//! The level container: palette, background, optional parallax layer and
//! environment parameters.
//!
//! A level file is a palette stored with 6-bit components (rescaled to 8
//! bits on decode), one mandatory indexed image, an optional second one
//! gated by a one-byte flag (value 1 means present), a one-byte star flag,
//! and a 16-bit discriminant: the value 2 means five more 16-bit fields
//! follow, in the order rain, snow, bombing, civilians, armed-civilian
//! percentage; any other value means those five take the fixed defaults
//! 0, 0, 4, 50, 100. Nothing follows the tail, so no trailing-data check
//! applies.
use crate::bytes::{le16_at, read_u16, read_u8};
use crate::image::{spec_parse_image, Image, SpecImage};
use crate::palette::{spec_palette, parse_palette, Palette, Rgb};
use crate::DecodeError;
use vstd::prelude::*;

verus! {

/// The ghost value of a decoded level.
pub ghost struct SpecLevel {
    pub palette: Seq<Rgb>,
    pub level: SpecImage,
    pub parallax: Option<SpecImage>,
    pub show_stars: bool,
    pub rain_probability: u32,
    pub snow_probability: u32,
    pub bombing_probability: u32,
    pub num_civilians: u32,
    pub armed_civilians_percentage: u32,
}

/// What the tail of a level yields once the images are decoded: the star
/// flag, the discriminant, and the five environment parameters, explicit
/// only when the discriminant equals 2.
pub open spec fn spec_parse_level_tail(
    s: Seq<u8>,
    pos: int,
    pal: Seq<Rgb>,
    bg: SpecImage,
    par: Option<SpecImage>,
) -> Result<SpecLevel, DecodeError> {
    if pos + 1 > s.len() {
        Err(DecodeError::Truncated)
    } else {
        let stars = s[pos] == 1;
        if pos + 3 > s.len() {
            Err(DecodeError::Truncated)
        } else if le16_at(s, pos + 1) == 2 {
            if pos + 13 > s.len() {
                Err(DecodeError::Truncated)
            } else {
                Ok(
                    SpecLevel {
                        palette: pal,
                        level: bg,
                        parallax: par,
                        show_stars: stars,
                        rain_probability: le16_at(s, pos + 3) as u32,
                        snow_probability: le16_at(s, pos + 5) as u32,
                        bombing_probability: le16_at(s, pos + 7) as u32,
                        num_civilians: le16_at(s, pos + 9) as u32,
                        armed_civilians_percentage: le16_at(s, pos + 11) as u32,
                    },
                )
            }
        } else {
            Ok(
                SpecLevel {
                    palette: pal,
                    level: bg,
                    parallax: par,
                    show_stars: stars,
                    rain_probability: 0,
                    snow_probability: 0,
                    bombing_probability: 4,
                    num_civilians: 50,
                    armed_civilians_percentage: 100,
                },
            )
        }
    }
}

/// What parsing a level container yields: the 6-bit palette scaled to 8
/// bits, the background image, the optional parallax image, then the tail.
pub open spec fn spec_parse_level(s: Seq<u8>) -> Result<SpecLevel, DecodeError> {
    if 768 > s.len() {
        Err(DecodeError::Truncated)
    } else {
        let pal = spec_palette(s, 0, true);
        match spec_parse_image(s, 768) {
            Err(e) => Err(e),
            Ok((bg, p1)) => if p1 + 1 > s.len() {
                Err(DecodeError::Truncated)
            } else if s[p1] == 1 {
                match spec_parse_image(s, p1 + 1) {
                    Err(e) => Err(e),
                    Ok((par, p2)) => spec_parse_level_tail(s, p2, pal, bg, Some(par)),
                }
            } else {
                spec_parse_level_tail(s, p1 + 1, pal, bg, None)
            },
        }
    }
}

/// A decoded level: its palette, background, optional parallax layer, and
/// environment parameters.
pub struct Level {
    pub palette: Palette,
    pub level: Image,
    pub parallax: Option<Image>,
    pub show_stars: bool,
    pub rain_probability: u32,
    pub snow_probability: u32,
    pub bombing_probability: u32,
    pub num_civilians: u32,
    pub armed_civilians_percentage: u32,
}

impl View for Level {
    type V = SpecLevel;

    open spec fn view(&self) -> SpecLevel {
        SpecLevel {
            palette: self.palette@,
            level: self.level@,
            parallax: match self.parallax {
                Some(im) => Some(im@),
                None => None,
            },
            show_stars: self.show_stars,
            rain_probability: self.rain_probability,
            snow_probability: self.snow_probability,
            bombing_probability: self.bombing_probability,
            num_civilians: self.num_civilians,
            armed_civilians_percentage: self.armed_civilians_percentage,
        }
    }
}

impl Level {
    /// A level carries a full palette and well-formed images.
    pub open spec fn wf(&self) -> bool {
        &&& self.palette.wf()
        &&& self.level.wf()
        &&& match self.parallax {
            Some(im) => im.wf(),
            None => true,
        }
    }
}

/// Decode a level container from `input`. Nothing follows the final
/// optional fields, so trailing bytes are permitted.
#[verifier::rlimit(60)]
pub fn parse_level(input: &[u8]) -> (r: Result<Level, DecodeError>)
    ensures
        match (r, spec_parse_level(input@)) {
            (Ok(l), Ok(s)) => l@ == s && l.wf(),
            (Err(e1), Err(e2)) => e1 == e2,
            _ => false,
        },
{
    let (palette, p0) = match parse_palette(input, 0, true) {
        Ok(t) => t,
        Err(e) => { return Err(e) },
    };
    let (level, p1) = match Image::parse(input, p0) {
        Ok(t) => t,
        Err(e) => { return Err(e) },
    };
    let (flag, p2) = match read_u8(input, p1) {
        Ok(t) => t,
        Err(e) => { return Err(e) },
    };
    let (parallax, p3) = if flag == 1 {
        let (par, p) = match Image::parse(input, p2) {
            Ok(t) => t,
            Err(e) => { return Err(e) },
        };
        (Some(par), p)
    } else {
        (None, p2)
    };
    let (stars_byte, p4) = match read_u8(input, p3) {
        Ok(t) => t,
        Err(e) => { return Err(e) },
    };
    let (discriminant, p5) = match read_u16(input, p4) {
        Ok(t) => t,
        Err(e) => { return Err(e) },
    };
    let (rain, snow, bombing, civilians, armed) = if discriminant == 2 {
        let (rain, q1) = match read_u16(input, p5) {
            Ok(t) => t,
            Err(e) => { return Err(e) },
        };
        let (snow, q2) = match read_u16(input, q1) {
            Ok(t) => t,
            Err(e) => { return Err(e) },
        };
        let (bombing, q3) = match read_u16(input, q2) {
            Ok(t) => t,
            Err(e) => { return Err(e) },
        };
        let (civilians, q4) = match read_u16(input, q3) {
            Ok(t) => t,
            Err(e) => { return Err(e) },
        };
        let (armed, _q5) = match read_u16(input, q4) {
            Ok(t) => t,
            Err(e) => { return Err(e) },
        };
        (rain as u32, snow as u32, bombing as u32, civilians as u32, armed as u32)
    } else {
        (0u32, 0u32, 4u32, 50u32, 100u32)
    };
    Ok(
        Level {
            palette,
            level,
            parallax,
            show_stars: stars_byte == 1,
            rain_probability: rain,
            snow_probability: snow,
            bombing_probability: bombing,
            num_civilians: civilians,
            armed_civilians_percentage: armed,
        },
    )
}

/// Decode a level from a whole input buffer, as the conversion pipeline
/// does, dropping the distinction between failure causes.
pub fn load_level(data: &[u8]) -> (r: Option<Level>)
    ensures
        match r {
            Some(l) => spec_parse_level(data@) == Ok::<_, DecodeError>(l@) && l.wf(),
            None => spec_parse_level(data@) is Err,
        },
{
    match parse_level(data) {
        Ok(l) => Some(l),
        Err(_) => None,
    }
}

/// Which output of a level conversion a path is wanted for: the background
/// raster, the parallax raster, or the textual summary.
#[derive(Clone, Copy, Debug, PartialEq, Eq, Structural)]
pub enum Asset {
    Level,
    Parallax,
    Info,
}

} // verus!
