use tty_atlas::font::BitmapFont;
use tty_atlas::rasterizer::rasterize_char;
use tty_atlas::atlas::{next_power_of_two, rasterize_font};

fn font_300(glyph_h: usize) -> BitmapFont {
    // 300 glyphs so the font spans two atlases; glyph 260 gets a marker row.
    let mut glyphs = Vec::new();
    for g in 0..300usize {
        let mut bitmap = vec![0u8; glyph_h];
        if g == 260 {
            bitmap[0] = 0b1100_0001;
        }
        glyphs.push(bitmap);
    }
    let chars = vec![(' ', 0usize), ('?', 1usize), ('A', 260usize)];
    BitmapFont::new(8, glyph_h, glyphs, chars).expect("valid font")
}

#[test]
fn pattern_is_bit_reversed_per_byte() {
    // One row 0b1100_0001: leftmost pixel is the most significant bit.
    let mut target = vec![0u8; 16 * 2 * 128];
    let data: Vec<u8> = vec![0b1100_0001, 0b0000_0000];
    rasterize_char(&mut target, 128, 0, data.as_slice(), 8);
    assert_eq!(&target[0..8], &[0xFF, 0xFF, 0, 0, 0, 0, 0, 0xFF]);
    assert_eq!(&target[128..136], &[0, 0, 0, 0, 0, 0, 0, 0]);
}

#[test]
fn slot_offsets_within_grid() {
    // Slot 5 sits at grid row 0, column 5; slot 17 at row 1, column 1.
    let mut target = vec![0u8; 16 * 2 * 128];
    let data: Vec<u8> = vec![0xFF, 0xFF];
    rasterize_char(&mut target, 128, 5, data.as_slice(), 8);
    assert_eq!(&target[40..48], &[0xFF; 8]);
    let mut target2 = vec![0u8; 16 * 2 * 128];
    rasterize_char(&mut target2, 128, 17, data.as_slice(), 8);
    let base = 1 * 2 * 128 + 1 * 8;
    assert_eq!(&target2[base..base + 8], &[0xFF; 8]);
    // Nothing outside the slot's block was touched.
    assert_eq!(target2[0], 0);
    assert_eq!(target2[base - 1], 0);
}

#[test]
fn narrow_glyph_leaves_padding_untouched() {
    // Width 4: each row byte contributes only its four high bits.
    let mut target = vec![0xAAu8; 16 * 1 * 64];
    let data: Vec<u8> = vec![0b1010_0000];
    rasterize_char(&mut target, 64, 0, data.as_slice(), 4);
    assert_eq!(&target[0..4], &[0xFF, 0x00, 0xFF, 0x00]);
    assert_eq!(target[4], 0xAA);
}

#[test]
fn glyph_260_lands_in_atlas_one_slot_four() {
    // Glyph index 260 maps to atlas 260/256 = 1, slot 260%256 = 4,
    // independent of the font's total glyph count.
    let font = font_300(16);
    let rf = rasterize_font(&font);
    assert_eq!(rf.textures.len(), 2);
    assert_eq!(rf.texture_width, 128);
    // Slot 4 of atlas 1: grid row 0, column 4; marker row 0b1100_0001.
    let base = 4 * 8;
    assert_eq!(
        &rf.textures[1][base..base + 8],
        &[0xFF, 0xFF, 0, 0, 0, 0, 0, 0xFF]
    );
    // The same offset in atlas 0 holds an all-clear glyph.
    assert_eq!(&rf.textures[0][base..base + 8], &[0u8; 8]);
}

#[test]
fn partial_last_atlas_is_zero_past_its_glyphs() {
    // Atlas 1 holds glyphs 256..300: slots 44.. stay zero.
    let font = font_300(16);
    let rf = rasterize_font(&font);
    let stride = rf.texture_width;
    // Slot 44 (row 2, col 12) would be the first unused slot.
    let base = (44 / 16) * 16 * stride + (44 % 16) * 8;
    assert_eq!(&rf.textures[1][base..base + 8], &[0u8; 8]);
}

#[test]
fn atlas_sizing_and_char_dim() {
    // glyph 8x16: atlas 128x256, one glyph cell is 1/16 of each axis.
    let font = font_300(16);
    let rf = rasterize_font(&font);
    assert_eq!(rf.texture_width, 128);
    assert_eq!(rf.texture_height, 256);
    let char_dim_x = rf.glyph_w as f32 / rf.texture_width as f32;
    let char_dim_y = rf.glyph_h as f32 / rf.texture_height as f32;
    assert_eq!(char_dim_x, 0.0625);
    assert_eq!(char_dim_y, 0.0625);
}

#[test]
fn atlas_count_follows_glyph_count() {
    let mk = |count: usize| {
        let glyphs = vec![vec![0u8; 4]; count];
        let chars = vec![(' ', 0usize), ('?', 0usize)];
        BitmapFont::new(6, 4, glyphs, chars).expect("valid font")
    };
    assert_eq!(rasterize_font(&mk(1)).textures.len(), 1);
    assert_eq!(rasterize_font(&mk(256)).textures.len(), 1);
    assert_eq!(rasterize_font(&mk(257)).textures.len(), 2);
}

#[test]
fn next_power_of_two_rounds_up() {
    assert_eq!(next_power_of_two(0), 1);
    assert_eq!(next_power_of_two(1), 1);
    assert_eq!(next_power_of_two(96), 128);
    assert_eq!(next_power_of_two(128), 128);
    assert_eq!(next_power_of_two(129), 256);
}
