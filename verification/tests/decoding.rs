use wings_assets::font::{load_font, parse_font};
use wings_assets::image::Image;
use wings_assets::level::{load_level, parse_level};
use wings_assets::palette::parse_palette;
use wings_assets::rle::rle_decode;
use wings_assets::ship::{load_ship, parse_ship};
use wings_assets::DecodeError;

fn push_u16(out: &mut Vec<u8>, v: u16) {
    out.push((v & 0xFF) as u8);
    out.push((v >> 8) as u8);
}

fn push_u32(out: &mut Vec<u8>, v: u32) {
    out.push((v & 0xFF) as u8);
    out.push(((v >> 8) & 0xFF) as u8);
    out.push(((v >> 16) & 0xFF) as u8);
    out.push(((v >> 24) & 0xFF) as u8);
}

/// An image record: width/height/compressed-length header plus RLE body.
fn image_bytes(width: u16, height: u16, body: &[u8]) -> Vec<u8> {
    let mut out = Vec::new();
    push_u16(&mut out, width);
    push_u16(&mut out, height);
    push_u32(&mut out, body.len() as u32);
    out.extend_from_slice(body);
    out
}

#[test]
fn rle_run_example() {
    // Literal 5, run marker 0b11000011 (length 3), fill byte 9.
    let r = rle_decode(&[0x05, 0xC3, 0x09]).unwrap();
    assert_eq!(r, vec![0x05, 0x09, 0x09, 0x09]);
}

#[test]
fn rle_literals_pass_through() {
    let r = rle_decode(&[0x00, 0x41, 0xBF, 0x7F]).unwrap();
    assert_eq!(r, vec![0x00, 0x41, 0xBF, 0x7F]);
}

#[test]
fn rle_empty_input() {
    let r = rle_decode(&[]).unwrap();
    assert!(r.is_empty());
}

#[test]
fn rle_zero_length_run() {
    // 0xC0 is a run marker with length 0: it still consumes its value byte.
    let r = rle_decode(&[0xC0, 0x07, 0x02]).unwrap();
    assert_eq!(r, vec![0x02]);
}

#[test]
fn rle_trailing_marker_is_truncated() {
    assert!(matches!(rle_decode(&[0x05, 0xC3]), Err(DecodeError::Truncated)));
}

#[test]
fn image_exact_pixel_count() {
    let data = image_bytes(2, 2, &[1, 2, 3, 4]);
    let (img, end) = Image::parse(&data, 0).unwrap();
    assert_eq!(end, data.len());
    assert_eq!(img.width, 2);
    assert_eq!(img.height, 2);
    assert_eq!(img.pixels, vec![1, 2, 3, 4]);
}

#[test]
fn image_with_run_body() {
    // Run of 4 sevens fills a 2x2 image.
    let data = image_bytes(2, 2, &[0xC4, 7]);
    let (img, _) = Image::parse(&data, 0).unwrap();
    assert_eq!(img.pixels, vec![7, 7, 7, 7]);
}

#[test]
fn image_three_pixels_for_four_fails() {
    let data = image_bytes(2, 2, &[1, 2, 3]);
    assert!(matches!(Image::parse(&data, 0), Err(DecodeError::Invalid)));
}

#[test]
fn image_five_pixels_for_four_fails() {
    let data = image_bytes(2, 2, &[1, 2, 3, 4, 5]);
    assert!(matches!(Image::parse(&data, 0), Err(DecodeError::Invalid)));
}

#[test]
fn image_short_header_is_truncated() {
    assert!(matches!(Image::parse(&[1, 0, 1], 0), Err(DecodeError::Truncated)));
}

#[test]
fn image_short_body_is_truncated() {
    let mut data = Vec::new();
    push_u16(&mut data, 1);
    push_u16(&mut data, 1);
    push_u32(&mut data, 9);
    data.push(1);
    assert!(matches!(Image::parse(&data, 0), Err(DecodeError::Truncated)));
}

#[test]
fn palette_scales_six_bit_components() {
    let data = vec![63u8; 768];
    let (pal, end) = parse_palette(&data, 0, true).unwrap();
    assert_eq!(end, 768);
    let c = pal.get(0);
    assert_eq!((c.r, c.g, c.b), (252, 252, 252));
    let c = pal.get(255);
    assert_eq!((c.r, c.g, c.b), (252, 252, 252));
}

#[test]
fn palette_keeps_eight_bit_components() {
    let mut data = vec![0u8; 768];
    data[0] = 200;
    data[1] = 100;
    data[2] = 50;
    let (pal, _) = parse_palette(&data, 0, false).unwrap();
    let c = pal.get(0);
    assert_eq!((c.r, c.g, c.b), (200, 100, 50));
}

#[test]
fn palette_reads_triples_in_order() {
    let mut data = vec![0u8; 768];
    // Entry 1 is bytes 3..6.
    data[3] = 1;
    data[4] = 2;
    data[5] = 3;
    let (pal, _) = parse_palette(&data, 0, true).unwrap();
    let c = pal.get(1);
    assert_eq!((c.r, c.g, c.b), (4, 8, 12));
}

#[test]
fn palette_short_input_is_truncated() {
    let data = vec![0u8; 767];
    assert!(matches!(parse_palette(&data, 0, false), Err(DecodeError::Truncated)));
}

/// A font file: 256 glyph records, glyph `i` holding `pixel(i)` bytes.
fn font_bytes(width: u16, height: u16) -> Vec<u8> {
    let mut out = Vec::new();
    for i in 0..256u16 {
        push_u16(&mut out, width);
        push_u16(&mut out, height);
        for p in 0..width * height {
            out.push((i as u8).wrapping_add(p as u8));
        }
    }
    out
}

#[test]
fn font_uniform_dimensions_succeed() {
    let font = load_font(&font_bytes(2, 2)).unwrap();
    assert_eq!(font.num_glyphs(), 256);
    assert_eq!(font.glyph_width, 2);
    assert_eq!(font.glyph_height, 2);
}

#[test]
fn font_mismatched_glyph_fails() {
    // Rewrite glyph 5's record (offset 5 * 8) to declare 4 by 1 instead of
    // 2 by 2: the same byte count, so only the uniformity check can fail.
    let mut data = font_bytes(2, 2);
    data[5 * 8] = 4;
    data[5 * 8 + 2] = 1;
    assert!(matches!(parse_font(&data), Err(DecodeError::Invalid)));
    assert!(load_font(&data).is_none());
}

#[test]
fn font_glyph_pixel_is_width_major() {
    let font = load_font(&font_bytes(2, 2)).unwrap();
    // Glyph 5 holds bytes [5, 6, 7, 8]; local (x, y) sits at x * width + y.
    assert_eq!(font.glyph_pixel(5, 0, 0), Some(5));
    assert_eq!(font.glyph_pixel(5, 0, 1), Some(6));
    assert_eq!(font.glyph_pixel(5, 1, 0), Some(7));
    assert_eq!(font.glyph_pixel(5, 1, 1), Some(8));
}

#[test]
fn font_glyph_pixel_out_of_range_is_none() {
    let font = load_font(&font_bytes(2, 2)).unwrap();
    assert_eq!(font.glyph_pixel(256, 0, 0), None);
    assert_eq!(font.glyph_pixel(0, 2, 0), None);
    assert_eq!(font.glyph_pixel(0, 0, 2), None);
}

#[test]
fn font_trailing_byte_fails() {
    let mut data = font_bytes(1, 1);
    data.push(0);
    assert!(matches!(parse_font(&data), Err(DecodeError::Invalid)));
}

#[test]
fn font_truncated_record_fails() {
    let mut data = font_bytes(1, 1);
    data.pop();
    assert!(matches!(parse_font(&data), Err(DecodeError::Truncated)));
}

/// A ship file: magic, reserved bytes, name, seven properties, then 72
/// one-by-one-pixel frames where frame `i` holds color index `i`.
fn ship_bytes(magic: &[u8; 4], name: &[u8]) -> Vec<u8> {
    let mut out = Vec::new();
    out.extend_from_slice(magic);
    out.extend_from_slice(&[0xAA; 4]);
    push_u32(&mut out, name.len() as u32);
    out.extend_from_slice(name);
    for p in 0..7u32 {
        push_u32(&mut out, 1000 + p);
    }
    for i in 0..72u8 {
        out.extend_from_slice(&image_bytes(1, 1, &[i]));
    }
    out
}

#[test]
fn ship_decodes_whole_archive() {
    let ship = load_ship(&ship_bytes(b"WSHP", b"Vessel")).unwrap();
    assert_eq!(ship.name, "Vessel");
    assert_eq!(ship.properties, (1000..1007).collect::<Vec<u32>>());
    assert_eq!(ship.images.len(), 72);
    assert_eq!(ship.images[41].pixels, vec![41]);
}

#[test]
fn ship_wrong_magic_fails_before_anything_else() {
    // Even with nothing after the tag, the wrong magic is the structural
    // failure reported, not truncation.
    assert!(matches!(parse_ship(b"WSHQ"), Err(DecodeError::Invalid)));
    let data = ship_bytes(b"WSHQ", b"Vessel");
    assert!(matches!(parse_ship(&data), Err(DecodeError::Invalid)));
}

#[test]
fn ship_short_magic_is_truncated() {
    assert!(matches!(parse_ship(b"WS"), Err(DecodeError::Truncated)));
}

#[test]
fn ship_name_decodes_lossily() {
    let ship = load_ship(&ship_bytes(b"WSHP", &[0x41, 0xFF, 0x42])).unwrap();
    assert_eq!(ship.name, "A\u{FFFD}B");
}

#[test]
fn ship_mismatched_frame_fails() {
    let mut data = ship_bytes(b"WSHP", b"V");
    // Replace the last frame with a 1x2 image, keeping the length intact.
    let tail = data.len() - 9;
    data.truncate(tail);
    data.extend_from_slice(&image_bytes(1, 2, &[1, 2]));
    assert!(matches!(parse_ship(&data), Err(DecodeError::Invalid)));
}

#[test]
fn ship_trailing_byte_fails() {
    let mut data = ship_bytes(b"WSHP", b"V");
    data.push(0);
    assert!(matches!(parse_ship(&data), Err(DecodeError::Invalid)));
}

#[test]
fn ship_truncated_frames_fail() {
    let mut data = ship_bytes(b"WSHP", b"V");
    data.pop();
    assert!(matches!(parse_ship(&data), Err(DecodeError::Truncated)));
}

/// A level file: palette, 2x2 background, then the given tail.
fn level_bytes(parallax: bool, tail: &[u8]) -> Vec<u8> {
    let mut out = vec![21u8; 768];
    out.extend_from_slice(&image_bytes(2, 2, &[1, 2, 3, 4]));
    if parallax {
        out.push(1);
        out.extend_from_slice(&image_bytes(1, 2, &[9, 8]));
    } else {
        out.push(0);
    }
    out.extend_from_slice(tail);
    out
}

#[test]
fn level_discriminant_two_reads_explicit_fields() {
    let mut tail = vec![1u8];
    push_u16(&mut tail, 2);
    for v in [7u16, 8, 9, 10, 11] {
        push_u16(&mut tail, v);
    }
    let level = load_level(&level_bytes(false, &tail)).unwrap();
    assert!(level.show_stars);
    assert_eq!(level.rain_probability, 7);
    assert_eq!(level.snow_probability, 8);
    assert_eq!(level.bombing_probability, 9);
    assert_eq!(level.num_civilians, 10);
    assert_eq!(level.armed_civilians_percentage, 11);
}

#[test]
fn level_other_discriminant_yields_defaults() {
    let mut tail = vec![0u8];
    push_u16(&mut tail, 1);
    // Garbage afterwards must not be read as fields.
    tail.extend_from_slice(&[0xDE, 0xAD, 0xBE, 0xEF, 0x01, 0x02, 0x03]);
    let level = load_level(&level_bytes(false, &tail)).unwrap();
    assert!(!level.show_stars);
    assert_eq!(level.rain_probability, 0);
    assert_eq!(level.snow_probability, 0);
    assert_eq!(level.bombing_probability, 4);
    assert_eq!(level.num_civilians, 50);
    assert_eq!(level.armed_civilians_percentage, 100);
}

#[test]
fn level_palette_is_scaled_six_to_eight() {
    let mut tail = vec![0u8];
    push_u16(&mut tail, 0);
    let level = load_level(&level_bytes(false, &tail)).unwrap();
    let c = level.palette.get(0);
    assert_eq!((c.r, c.g, c.b), (84, 84, 84));
}

#[test]
fn level_parallax_flag_reads_second_image() {
    let mut tail = vec![1u8];
    push_u16(&mut tail, 0);
    let level = load_level(&level_bytes(true, &tail)).unwrap();
    let parallax = level.parallax.unwrap();
    assert_eq!((parallax.width, parallax.height), (1, 2));
    assert_eq!(parallax.pixels, vec![9, 8]);
    assert_eq!(level.level.pixels, vec![1, 2, 3, 4]);
}

#[test]
fn level_without_parallax_has_none() {
    let mut tail = vec![0u8];
    push_u16(&mut tail, 0);
    let level = load_level(&level_bytes(false, &tail)).unwrap();
    assert!(level.parallax.is_none());
}

#[test]
fn level_truncated_tail_fails() {
    let data = level_bytes(false, &[1]);
    assert!(matches!(parse_level(&data), Err(DecodeError::Truncated)));
    assert!(load_level(&data).is_none());
}
