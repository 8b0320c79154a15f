use wings_assets::font;
use wings_assets::image::Image;
use wings_assets::palette::{parse_palette, Palette, Rgb};
use wings_assets::raster::Raster;
use wings_assets::ship;

fn push_u16(out: &mut Vec<u8>, v: u16) {
    out.push((v & 0xFF) as u8);
    out.push((v >> 8) as u8);
}

fn push_u32(out: &mut Vec<u8>, v: u32) {
    out.push((v & 0xFF) as u8);
    out.push(((v >> 8) & 0xFF) as u8);
    out.push(((v >> 16) & 0xFF) as u8);
    out.push(((v >> 24) & 0xFF) as u8);
}

/// A palette whose entry `i` is `(i, 255 - i, i / 2)`.
fn test_palette() -> Palette {
    let mut data = Vec::new();
    for i in 0..=255u8 {
        data.push(i);
        data.push(255 - i);
        data.push(i / 2);
    }
    let (pal, _) = parse_palette(&data, 0, false).unwrap();
    pal
}

#[test]
fn raster_set_then_get() {
    let mut raster = Raster { width: 3, height: 2, pixels: vec![Rgb { r: 0, g: 0, b: 0 }; 6] };
    raster.set(2, 1, Rgb { r: 9, g: 8, b: 7 });
    let c = raster.get(2, 1);
    assert_eq!((c.r, c.g, c.b), (9, 8, 7));
    let c = raster.get(0, 0);
    assert_eq!((c.r, c.g, c.b), (0, 0, 0));
}

#[test]
fn indexed_image_maps_through_palette() {
    let pal = test_palette();
    let img = Image { width: 2, height: 2, pixels: vec![0, 1, 2, 3] };
    let raster = img.to_rgb_image(&pal);
    assert_eq!((raster.width, raster.height), (2, 2));
    // Row-major: (x, y) = (1, 1) is pixel index 3.
    let c = raster.get(1, 1);
    assert_eq!((c.r, c.g, c.b), (3, 252, 1));
    let c = raster.get(1, 0);
    assert_eq!((c.r, c.g, c.b), (1, 254, 0));
}

#[test]
fn font_grid_composition() {
    // 256 one-pixel glyphs; glyph i is intensity i.
    let mut data = Vec::new();
    for i in 0..256u16 {
        push_u16(&mut data, 1);
        push_u16(&mut data, 1);
        data.push(i as u8);
    }
    let atlas = font::load_font(&data).unwrap();
    let raster = font::generate_image(&atlas);
    assert_eq!((raster.width, raster.height), (16, 16));
    // The glyph with index gx * 16 + gy sits at column gy, row gx.
    for gx in 0..16u32 {
        for gy in 0..16u32 {
            let c = raster.get(gy, gx);
            let v = (gx * 16 + gy) as u8;
            assert_eq!((c.r, c.g, c.b), (v, v, v));
        }
    }
}

#[test]
fn ship_strip_composition() {
    let mut data = Vec::new();
    data.extend_from_slice(b"WSHP");
    data.extend_from_slice(&[0; 4]);
    push_u32(&mut data, 0);
    for _ in 0..7 {
        push_u32(&mut data, 0);
    }
    // Frame i is a single pixel holding color index i.
    for i in 0..72u8 {
        push_u16(&mut data, 1);
        push_u16(&mut data, 1);
        push_u32(&mut data, 1);
        data.push(i);
    }
    let vessel = ship::load_ship(&data).unwrap();
    let pal = test_palette();
    let raster = ship::generate_image(&vessel, &pal);
    assert_eq!((raster.width, raster.height), (72, 1));
    for i in 0..72u32 {
        let c = raster.get(i, 0);
        let v = i as u8;
        assert_eq!((c.r, c.g, c.b), (v, 255 - v, v / 2));
    }
}
