use flat::atlas::TextError;
use flat::font::{FontContainer, TextMap, GLYPH_COUNT};

const SYSTEM_FONT: &str = "/usr/share/fonts/truetype/dejavu/DejaVuSans.ttf";

#[test]
fn missing_font_file_fails_to_load() {
    let mut map = TextMap::new().unwrap();
    let r = map.generate_from_path("nothing".to_string(), "/no/such/dir/none.ttf", 0);
    assert_eq!(r, Err(TextError::FaceLoad));
    assert!(map.fonts.is_empty());
    assert!(map.get(&"nothing".to_string()).is_none());
}

#[test]
fn font_by_name_is_looked_up_in_the_fonts_directory() {
    let mut map = TextMap::new().unwrap();
    assert_eq!(map.generate("no-such-font.ttf".to_string(), 0), Err(TextError::FaceLoad));
}

#[test]
fn system_font_renders_into_an_atlas() {
    if !std::path::Path::new(SYSTEM_FONT).exists() {
        return;
    }
    let mut map = TextMap::new().unwrap();
    map.generate_from_path("sans".to_string(), SYSTEM_FONT, 0).unwrap();
    map.generate_from_path("mono".to_string(), SYSTEM_FONT, 0).unwrap();
    map.generate_from_path("sans".to_string(), SYSTEM_FONT, 0).unwrap();
    assert_eq!(map.fonts.len(), 2);
    assert_eq!(map.fonts[0].0, "sans");
    assert_eq!(map.fonts[1].0, "mono");
    let font: &FontContainer = map.get(&"sans".to_string()).unwrap();
    assert_eq!(font.linear_atlas.descriptors.len(), GLYPH_COUNT);
    let atlas = &font.atlas;
    assert_eq!(atlas.h, font.linear_atlas.max_y_max + font.linear_atlas.max_y_min);
    assert_eq!(atlas.bytes.len(), atlas.h * atlas.stride);
    let (a, px) = font.get_glyph_texture('A' as usize).unwrap();
    assert!(a.h > 0 && a.w > 0);
    assert_eq!(px.len(), (a.h * a.pitch) as usize);
    assert!(px.iter().any(|&b| b != 0));
    let (space, _) = font.get_glyph_texture(' ' as usize).unwrap();
    assert!(space.advance > 0);
    assert!(font.get_glyph_texture(GLYPH_COUNT).is_none());
}

#[test]
fn font_names_are_resolved_inside_the_fonts_directory() {
    if !std::path::Path::new(SYSTEM_FONT).exists() {
        return;
    }
    let mut map = TextMap::new().unwrap();
    assert_eq!(map.generate(SYSTEM_FONT.to_string(), 0), Err(TextError::FaceLoad));
    assert!(map.get(&SYSTEM_FONT.to_string()).is_none());
}
