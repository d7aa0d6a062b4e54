use tty_atlas::font::{BitmapFont, FontError};

fn ok_glyphs(count: usize, h: usize) -> Vec<Vec<u8>> {
    vec![vec![0u8; h]; count]
}

fn ok_chars() -> Vec<(char, usize)> {
    vec![(' ', 0usize), ('?', 1usize)]
}

#[test]
fn valid_font_builds() {
    let font = BitmapFont::new(8, 16, ok_glyphs(2, 16), ok_chars()).expect("valid font");
    assert_eq!(font.glyph_count(), 2);
    assert_eq!(font.get_glyph_index(' '), Some(0));
    assert_eq!(font.get_glyph_index('?'), Some(1));
    assert_eq!(font.get_glyph_index('z'), None);
}

#[test]
fn first_table_entry_wins() {
    let mut chars = ok_chars();
    chars.push((' ', 1));
    let font = BitmapFont::new(8, 16, ok_glyphs(2, 16), chars).expect("valid font");
    assert_eq!(font.get_glyph_index(' '), Some(0));
}

#[test]
fn zero_width_is_bad_dimensions() {
    assert!(matches!(
        BitmapFont::new(0, 16, ok_glyphs(2, 16), ok_chars()),
        Err(FontError::BadDimensions)
    ));
}

#[test]
fn nine_pixel_width_is_bad_dimensions() {
    assert!(matches!(
        BitmapFont::new(9, 16, ok_glyphs(2, 16), ok_chars()),
        Err(FontError::BadDimensions)
    ));
}

#[test]
fn zero_height_is_bad_dimensions() {
    assert!(matches!(
        BitmapFont::new(8, 0, ok_glyphs(2, 16), ok_chars()),
        Err(FontError::BadDimensions)
    ));
}

#[test]
fn too_many_glyphs_is_rejected() {
    assert!(matches!(
        BitmapFont::new(8, 1, ok_glyphs(0x10001, 1), ok_chars()),
        Err(FontError::TooManyGlyphs)
    ));
}

#[test]
fn wrong_bitmap_length_is_glyph_out_of_bounds() {
    let mut glyphs = ok_glyphs(2, 16);
    glyphs[1] = vec![0u8; 15];
    assert!(matches!(
        BitmapFont::new(8, 16, glyphs, ok_chars()),
        Err(FontError::GlyphOutOfBounds)
    ));
}

#[test]
fn mapping_past_the_glyphs_is_glyph_out_of_bounds() {
    let mut chars = ok_chars();
    chars.push(('A', 2));
    assert!(matches!(
        BitmapFont::new(8, 16, ok_glyphs(2, 16), chars),
        Err(FontError::GlyphOutOfBounds)
    ));
}

#[test]
fn missing_space_is_rejected() {
    let chars = vec![('?', 0usize)];
    assert!(matches!(
        BitmapFont::new(8, 16, ok_glyphs(2, 16), chars),
        Err(FontError::MissingSpaceGlyph)
    ));
}

#[test]
fn missing_question_mark_is_rejected() {
    let chars = vec![(' ', 0usize)];
    assert!(matches!(
        BitmapFont::new(8, 16, ok_glyphs(2, 16), chars),
        Err(FontError::MissingFallbackGlyph)
    ));
}

#[test]
fn fallback_prefers_replacement_character() {
    let chars = vec![(' ', 0usize), ('?', 1usize), ('\u{FFFD}', 2usize)];
    let font = BitmapFont::new(8, 4, ok_glyphs(3, 4), chars).expect("valid font");
    assert_eq!(font.fallback_index('z'), 2);
    assert_eq!(font.fallback_index(' '), 0);
}

#[test]
fn fallback_uses_question_mark_without_replacement() {
    let font = BitmapFont::new(8, 4, ok_glyphs(2, 4), ok_chars()).expect("valid font");
    assert_eq!(font.fallback_index('z'), 1);
}
