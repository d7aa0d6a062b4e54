use tty_atlas::atlas::rasterize_font;
use tty_atlas::encoder::NeoCharRender;
use tty_atlas::psf::font_from_psf2;
use tty_atlas::vterm::snapshot_from_screen;

fn ascii_candidates() -> Vec<char> {
    let mut v = Vec::new();
    for b in 0x20u8..0x7F {
        v.push(b as char);
    }
    v.push('\u{FFFD}');
    v
}

#[test]
fn terminus_font_model_matches_the_decoder() {
    let psf = psf2_font::load_terminus().expect("embedded font parses");
    let font = font_from_psf2(&psf, &ascii_candidates()).expect("terminus is usable");
    assert_eq!(font.glyph_w, 8);
    assert_eq!(font.glyph_h, 16);
    // Every printable ASCII character the decoder maps is in the model,
    // with the decoder's own bitmap.
    let idx_a = font.get_glyph_index('A').expect("terminus maps 'A'");
    assert_eq!(font.glyphs[idx_a], psf.get_glyph('A').expect("terminus maps 'A'"));
    let idx_space = font.get_glyph_index(' ').expect("terminus maps space");
    assert_eq!(
        font.glyphs[idx_space],
        psf.get_glyph(' ').expect("terminus maps space")
    );
}

#[test]
fn terminus_atlas_reproduces_decoded_bits() {
    // The rasterized slot of 'A' must expand the decoder's packed bits,
    // most significant bit leftmost, one byte per pixel.
    let psf = psf2_font::load_terminus().expect("embedded font parses");
    let font = font_from_psf2(&psf, &ascii_candidates()).expect("terminus is usable");
    let rf = rasterize_font(&font);
    assert_eq!(rf.texture_width, 128);
    assert_eq!(rf.texture_height, 256);
    let idx = font.get_glyph_index('A').expect("terminus maps 'A'");
    let bitmap = psf.get_glyph('A').expect("terminus maps 'A'");
    let atlas = &rf.textures[idx / 256];
    let slot = idx % 256;
    let base = (slot / 16) * 16 * rf.texture_width + (slot % 16) * 8;
    let mut any_set = false;
    for (r, &row) in bitmap.iter().enumerate() {
        for c in 0..8 {
            let expected = if (row >> (7 - c)) & 1 == 1 { 0xFF } else { 0x00 };
            assert_eq!(atlas[base + r * rf.texture_width + c], expected);
            any_set |= expected == 0xFF;
        }
    }
    assert!(any_set, "the glyph for 'A' draws at least one pixel");
}

#[test]
fn vt100_grid_flows_through_snapshot_and_encoder() {
    let psf = psf2_font::load_terminus().expect("embedded font parses");
    let font = font_from_psf2(&psf, &ascii_candidates()).expect("terminus is usable");
    let mut parser = vt100::Parser::new(2, 3, 0);
    parser.process(b"hi");
    let snap = snapshot_from_screen(parser.screen()).expect("snapshot fits");
    assert_eq!(snap.rows, 2);
    assert_eq!(snap.cols, 3);
    assert_eq!(snap.cells.len(), 6);
    assert_eq!(snap.cells[0].ch, 'h');
    assert_eq!(snap.cells[1].ch, 'i');
    assert_eq!(snap.cells[2].ch, ' ');
    let pal = vec![0u32; 256];
    let n_atlases = (font.glyph_count() + 255) / 256;
    let mut nc = NeoCharRender::new_with(n_atlases, 2, 3).expect("grid fits");
    nc.put_parser_data_into_buffers(&font, &pal, &snap);
    let total: usize = nc.fg_texture_counts.iter().sum();
    assert_eq!(total, 6);
    // The first tile-info word carries the glyph low byte of 'h' at (0,0).
    let idx_h = font.get_glyph_index('h').expect("terminus maps 'h'");
    assert_eq!(nc.big_buffer[12] & 0xFF, (idx_h & 0xFF) as u32);
}
