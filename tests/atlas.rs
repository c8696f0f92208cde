use flat::atlas::{GlyphRect, LinearTextAtlas, TexCoord, TextAtlas, TextError};
use flat::glyph::{GlyphBitmap, GlyphDesc, PixelBitSize, PixelMode};
use flat::text_mesh::build_text_mesh;

fn glyph(rows: i32, width: i32, pitch: i32, left: i32, top: i32, advance: i64, seed: u8) -> GlyphBitmap {
    let n = (rows.max(0) * pitch.max(0)) as usize;
    GlyphBitmap {
        buffer: (0..n).map(|i| seed.wrapping_add(i as u8) | 1).collect(),
        rows,
        width,
        pitch,
        left,
        top,
        advance,
        pixel_mode: PixelMode::Gray,
    }
}

fn empty_glyph() -> GlyphBitmap {
    glyph(0, 0, 0, 0, 0, 0, 0)
}

fn three_glyphs() -> Vec<GlyphBitmap> {
    vec![
        glyph(10, 8, 8, 0, 8, 9 * 64, 10),
        glyph(6, 6, 6, 1, 6, 7 * 64, 100),
        empty_glyph(),
    ]
}

/// An ASCII atlas whose only inked glyphs are 'A' and 'B'.
fn ascii_atlas() -> (LinearTextAtlas, TextAtlas) {
    let mut glyphs: Vec<GlyphBitmap> = (0..128).map(|_| empty_glyph()).collect();
    glyphs['A' as usize] = glyph(10, 8, 8, 0, 8, 8 * 64 + 10, 10);
    glyphs['B' as usize] = glyph(6, 6, 6, 1, 6, 7 * 64, 100);
    let lin = LinearTextAtlas::from_glyphs(&glyphs).unwrap();
    let atlas = TextAtlas::create(&lin);
    (lin, atlas)
}

#[test]
fn synthetic_face_packs_as_described() {
    let glyphs = three_glyphs();
    let lin = LinearTextAtlas::from_glyphs(&glyphs).unwrap();
    assert_eq!(lin.max_y_max, 8);
    assert_eq!(lin.max_y_min, 2);
    assert_eq!(lin.sum_pitch, 14);
    let atlas = TextAtlas::create(&lin);
    assert_eq!(atlas.h, 10);
    assert_eq!(atlas.w, 14);
    assert_eq!(atlas.stride, 14);
    assert_eq!(atlas.rects[0], GlyphRect::new((0, 0), (7, 9)));
    assert_eq!(atlas.rects[1], GlyphRect::new((8, 2), (13, 7)));
    assert_eq!(atlas.rects[2], GlyphRect::new((14, 8), (13, 7)));
}

#[test]
fn synthetic_face_pixels_are_copied_and_the_rest_is_zero() {
    let glyphs = three_glyphs();
    let lin = LinearTextAtlas::from_glyphs(&glyphs).unwrap();
    let atlas = TextAtlas::create(&lin);
    assert_eq!(atlas.bytes.len(), 140);
    let mut expected = vec![0u8; 140];
    for r in 0..10 {
        for c in 0..8 {
            expected[r * 14 + c] = glyphs[0].buffer[r * 8 + c];
        }
    }
    for r in 0..6 {
        for c in 0..6 {
            expected[(2 + r) * 14 + 8 + c] = glyphs[1].buffer[r * 6 + c];
        }
    }
    assert_eq!(atlas.bytes, expected);
}

#[test]
fn linear_store_concatenates_bitmaps() {
    let glyphs = three_glyphs();
    let lin = LinearTextAtlas::from_glyphs(&glyphs).unwrap();
    let mut all = glyphs[0].buffer.clone();
    all.extend_from_slice(&glyphs[1].buffer);
    assert_eq!(lin.bytes, all);
    assert_eq!(lin.descriptors[0].x_start, 0);
    assert_eq!(lin.descriptors[1].x_start, 80);
    assert_eq!(lin.descriptors[2].x_start, 116);
    assert_eq!(
        lin.descriptors[1],
        GlyphDesc { x_start: 80, h: 6, w: 6, pitch: 6, bearing_x: 1, bearing_y: 6, advance: 7 * 64 }
    );
    assert_eq!(lin.pixel_mode, PixelMode::Gray);
}

#[test]
fn packed_descriptors_start_at_their_columns() {
    let lin = LinearTextAtlas::from_glyphs(&three_glyphs()).unwrap();
    let atlas = TextAtlas::create(&lin);
    let starts: Vec<usize> = atlas.descriptors.iter().map(|d| d.x_start).collect();
    assert_eq!(starts, vec![0, 8, 14]);
    for (i, d) in atlas.descriptors.iter().enumerate() {
        assert_eq!(d.h, lin.descriptors[i].h);
        assert_eq!(d.pitch, lin.descriptors[i].pitch);
    }
}

#[test]
fn glyph_rows_lie_within_the_atlas() {
    let lin = LinearTextAtlas::from_glyphs(&three_glyphs()).unwrap();
    let atlas = TextAtlas::create(&lin);
    for (rect, d) in atlas.rects.iter().zip(atlas.descriptors.iter()) {
        assert!(rect.tl.1 >= 0);
        assert!(rect.br.1 < atlas.h as i64);
        assert_eq!(rect.br.1 - rect.tl.1, d.h as i64 - 1);
    }
}

#[test]
fn glyphs_follow_each_other_by_pitch() {
    let lin = LinearTextAtlas::from_glyphs(&three_glyphs()).unwrap();
    let atlas = TextAtlas::create(&lin);
    for i in 0..atlas.rects.len() - 1 {
        assert_eq!(atlas.rects[i + 1].tl.0, atlas.rects[i].tl.0 + atlas.descriptors[i].pitch as i64);
    }
}

#[test]
fn baselines_share_one_row() {
    let lin = LinearTextAtlas::from_glyphs(&three_glyphs()).unwrap();
    let atlas = TextAtlas::create(&lin);
    for (rect, d) in atlas.rects.iter().zip(atlas.descriptors.iter()) {
        assert_eq!(lin.max_y_max as i64 - d.bearing_y as i64, rect.tl.1);
    }
}

#[test]
fn width_in_texels_counts_four_byte_pixels() {
    let mut a = glyph(2, 2, 8, 0, 2, 0, 1);
    let mut b = glyph(1, 1, 4, 0, 1, 0, 2);
    a.pixel_mode = PixelMode::Bgra;
    b.pixel_mode = PixelMode::Bgra;
    let lin = LinearTextAtlas::from_glyphs(&vec![a, b]).unwrap();
    let atlas = TextAtlas::create(&lin);
    assert_eq!(atlas.stride, 12);
    assert_eq!(atlas.w, 3);
    assert_eq!(atlas.w * 4, atlas.descriptors.iter().map(|d| d.pitch as usize).sum::<usize>());
}

#[test]
fn glyphs_below_the_baseline_reach_the_last_row() {
    let glyphs = vec![glyph(3, 3, 3, 0, -2, 0, 5), glyph(4, 4, 4, 0, 4, 0, 9)];
    let lin = LinearTextAtlas::from_glyphs(&glyphs).unwrap();
    assert_eq!(lin.max_y_max, 4);
    assert_eq!(lin.max_y_min, 5);
    let atlas = TextAtlas::create(&lin);
    assert_eq!(atlas.h, 9);
    assert_eq!(atlas.rects[0], GlyphRect::new((0, 6), (2, 8)));
    assert_eq!(atlas.rects[1], GlyphRect::new((3, 0), (6, 3)));
}

#[test]
fn no_glyphs_is_an_empty_atlas() {
    assert_eq!(LinearTextAtlas::from_glyphs(&vec![]).err(), Some(TextError::EmptyAtlas));
}

#[test]
fn negative_pitch_is_rejected_with_its_code() {
    let mut glyphs = three_glyphs();
    glyphs[1].pitch = -6;
    assert_eq!(
        LinearTextAtlas::from_glyphs(&glyphs).err(),
        Some(TextError::NegativePitch { code: 1 })
    );
}

#[test]
fn short_buffer_is_rejected_with_its_code() {
    let mut glyphs = three_glyphs();
    glyphs[0].buffer.pop();
    glyphs[1].pitch = -1;
    assert_eq!(
        LinearTextAtlas::from_glyphs(&glyphs).err(),
        Some(TextError::MalformedBitmap { code: 0 })
    );
}

#[test]
fn negative_rows_are_rejected() {
    let mut glyphs = three_glyphs();
    glyphs[2].rows = -1;
    assert_eq!(
        LinearTextAtlas::from_glyphs(&glyphs).err(),
        Some(TextError::MalformedBitmap { code: 2 })
    );
}

#[test]
fn sub_byte_pixels_are_rejected() {
    let mut glyphs = three_glyphs();
    glyphs[2].pixel_mode = PixelMode::Mono;
    assert_eq!(LinearTextAtlas::from_glyphs(&glyphs).err(), Some(TextError::UnsupportedPixelMode));
}

#[test]
fn oversized_atlas_is_rejected() {
    let wide = glyph(0, 0, i32::MAX, 0, 0, 0, 0);
    let glyphs = vec![wide.clone_like(), wide.clone_like(), wide];
    assert_eq!(LinearTextAtlas::from_glyphs(&glyphs).err(), Some(TextError::AtlasTooLarge));
}

trait CloneLike {
    fn clone_like(&self) -> Self;
}

impl CloneLike for GlyphBitmap {
    fn clone_like(&self) -> Self {
        GlyphBitmap {
            buffer: self.buffer.clone(),
            rows: self.rows,
            width: self.width,
            pitch: self.pitch,
            left: self.left,
            top: self.top,
            advance: self.advance,
            pixel_mode: self.pixel_mode,
        }
    }
}

#[test]
fn glyph_texture_lookup_is_checked() {
    let glyphs = three_glyphs();
    let lin = LinearTextAtlas::from_glyphs(&glyphs).unwrap();
    let (d, px) = lin.get_glyph_texture(1).unwrap();
    assert_eq!(d.h, 6);
    assert_eq!(px, &glyphs[1].buffer[..]);
    let (_, px) = lin.get_glyph_texture(2).unwrap();
    assert!(px.is_empty());
    assert!(lin.get_glyph_texture(3).is_none());
}

#[test]
fn pixel_modes_report_their_bits() {
    assert_eq!(PixelMode::Undefined.get_size(), 0);
    assert_eq!(PixelMode::Mono.get_size(), 1);
    assert_eq!(PixelMode::Gray.get_size(), 8);
    assert_eq!(PixelMode::Gray2.get_size(), 2);
    assert_eq!(PixelMode::Gray4.get_size(), 4);
    assert_eq!(PixelMode::Lcd.get_size(), 8);
    assert_eq!(PixelMode::LcdV.get_size(), 8);
    assert_eq!(PixelMode::Bgra.get_size(), 32);
}

#[test]
fn normalized_rect_is_exact() {
    let r = GlyphRect::new((8, 2), (13, 7));
    let (tl, br) = r.normalized(10, 14).unwrap();
    assert_eq!(tl, (TexCoord { num: 8, den: 14 }, TexCoord { num: 2, den: 10 }));
    assert_eq!(br, (TexCoord { num: 13, den: 14 }, TexCoord { num: 7, den: 10 }));
}

#[test]
fn normalizing_against_no_area_fails() {
    let r = GlyphRect::new((0, 0), (1, 1));
    assert_eq!(r.normalized(0, 14).err(), Some(TextError::EmptyAtlas));
    assert_eq!(r.normalized(10, 0).err(), Some(TextError::EmptyAtlas));
}

#[test]
fn two_characters_make_twelve_vertices() {
    let (_, atlas) = ascii_atlas();
    let vs = build_text_mesh(&atlas, "AB", (0, 0)).unwrap();
    assert_eq!(vs.len(), 12);
    let a = atlas.descriptors['A' as usize];
    let b = atlas.descriptors['B' as usize];
    let pen_a = vs[0].position.0 - a.bearing_x as i128;
    let pen_b = vs[6].position.0 - b.bearing_x as i128;
    assert_eq!(pen_b - pen_a, (a.advance >> 6) as i128);
    assert_eq!(pen_b - pen_a, 8);
}

#[test]
fn quad_corners_follow_the_glyph() {
    let (_, atlas) = ascii_atlas();
    let vs = build_text_mesh(&atlas, "B", (0, 0)).unwrap();
    let (x0, x1, y0, y1) = (1i128, 7i128, 0i128, 6i128);
    let positions: Vec<(i128, i128)> = vs.iter().map(|v| v.position).collect();
    assert_eq!(positions, vec![(x0, y1), (x0, y0), (x1, y0), (x1, y0), (x1, y1), (x0, y1)]);
    let rect = atlas.rects['B' as usize];
    let (tl, br) = rect.normalized(atlas.h, atlas.w).unwrap();
    assert_eq!(vs[0].tex_coords, (tl.0, tl.1));
    assert_eq!(vs[1].tex_coords, (tl.0, br.1));
    assert_eq!(vs[2].tex_coords, (br.0, br.1));
    assert_eq!(vs[4].tex_coords, (br.0, tl.1));
}

#[test]
fn descent_moves_the_quad_below_the_baseline() {
    let (_, atlas) = ascii_atlas();
    let vs = build_text_mesh(&atlas, "A", (0, 0)).unwrap();
    assert_eq!(vs[1].position, (0, -2));
    assert_eq!(vs[0].position, (0, 8));
}

#[test]
fn empty_text_makes_no_vertices() {
    let (_, atlas) = ascii_atlas();
    assert_eq!(build_text_mesh(&atlas, "", (0, 0)).unwrap().len(), 0);
}

#[test]
fn characters_beyond_ascii_are_out_of_range() {
    let (_, atlas) = ascii_atlas();
    assert_eq!(
        build_text_mesh(&atlas, "Aé€", (0, 0)).err(),
        Some(TextError::CharacterOutOfRange { ch: 'é' })
    );
}

#[test]
fn an_atlas_without_ink_is_empty() {
    let glyphs: Vec<GlyphBitmap> = (0..128).map(|_| empty_glyph()).collect();
    let lin = LinearTextAtlas::from_glyphs(&glyphs).unwrap();
    let atlas = TextAtlas::create(&lin);
    assert_eq!(atlas.h, 0);
    assert_eq!(build_text_mesh(&atlas, "A", (0, 0)).err(), Some(TextError::EmptyAtlas));
}

#[test]
fn the_anchor_moves_every_vertex() {
    let (_, atlas) = ascii_atlas();
    let at_origin = build_text_mesh(&atlas, "AB", (0, 0)).unwrap();
    let moved = build_text_mesh(&atlas, "AB", (100, -20)).unwrap();
    assert_eq!(moved.len(), at_origin.len());
    for (m, o) in moved.iter().zip(at_origin.iter()) {
        assert_eq!(m.position, (o.position.0 + 100, o.position.1 - 20));
        assert_eq!(m.tex_coords, o.tex_coords);
    }
}
