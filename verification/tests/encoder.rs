use tty_atlas::encoder::{
    map_color, ColorSpec, NeoCharRender, TermCell, TermSnapshot, DEFAULT_BG_COLOR,
    DEFAULT_FG_COLOR,
};
use tty_atlas::font::BitmapFont;

fn plain_cell(ch: char) -> TermCell {
    TermCell {
        ch,
        fg: ColorSpec::Default,
        bg: ColorSpec::Default,
        bold: false,
        dim: false,
        italic: false,
        inverse: false,
    }
}

fn font_300() -> BitmapFont {
    let glyphs = vec![vec![0u8; 4]; 300];
    let chars = vec![(' ', 0usize), ('?', 1usize), ('A', 260usize)];
    BitmapFont::new(8, 4, glyphs, chars).expect("valid font")
}

fn pal() -> Vec<u32> {
    let mut p = vec![0u32; 256];
    for (i, slot) in p.iter_mut().enumerate() {
        *slot = i as u32 * 3;
    }
    p
}

#[test]
fn map_color_resolves_each_variant() {
    let p = pal();
    assert_eq!(map_color(ColorSpec::Default, &p, 0x11223344), 0x11223344);
    assert_eq!(map_color(ColorSpec::Idx(2), &p, 0), 6 | 0xFF000000);
    assert_eq!(
        map_color(ColorSpec::Rgb(0x12, 0x34, 0x56), &p, 0),
        0xFF123456
    );
}

#[test]
fn map_color_out_of_range_index_is_default() {
    let short = vec![7u32, 8u32];
    assert_eq!(map_color(ColorSpec::Idx(1), &short, 99), 8 | 0xFF000000);
    assert_eq!(map_color(ColorSpec::Idx(5), &short, 99), 99);
}

#[test]
fn snapshot_rejects_oversized_grids() {
    assert!(TermSnapshot::new(257, 2, Vec::new()).is_err());
    assert!(TermSnapshot::new(2, 257, Vec::new()).is_err());
    assert!(TermSnapshot::new(2, 2, vec![plain_cell(' ')]).is_err());
    assert!(TermSnapshot::new(1, 1, vec![plain_cell(' ')]).is_ok());
    assert!(NeoCharRender::new_with(1, 300, 2).is_err());
    assert!(NeoCharRender::new_with(1, 2, 2).is_ok());
}

#[test]
fn two_by_two_scenario_buckets_and_tile_info() {
    // A 2x2 grid over a 300-glyph font (two atlases). Cell (0,0) draws a
    // character whose glyph is index 260: atlas 1, low byte 4. It is bold,
    // takes palette entry 1 as foreground, and the default background. The
    // other three cells draw the space glyph, index 0, in atlas 0.
    let font = font_300();
    let p = pal();
    let mut cell_a = plain_cell('A');
    cell_a.bold = true;
    cell_a.fg = ColorSpec::Idx(1);
    let cells = vec![cell_a, plain_cell(' '), plain_cell(' '), plain_cell(' ')];
    let snap = TermSnapshot::new(2, 2, cells).expect("snapshot fits");
    let mut nc = NeoCharRender::new_with(2, 2, 2).expect("grid fits");
    nc.put_parser_data_into_buffers(&font, &p, &snap);
    assert_eq!(nc.fg_texture_counts, vec![3, 1]);
    // Backgrounds: all four cells resolve to the default background.
    assert_eq!(&nc.big_buffer[0..4], &[DEFAULT_BG_COLOR; 4]);
    // Atlas 0's foreground group: three default-white space cells, in
    // row-major order; atlas 1's single cell follows at offset 3.
    assert_eq!(&nc.big_buffer[4..7], &[DEFAULT_FG_COLOR; 3]);
    assert_eq!(nc.big_buffer[7], p[1] | 0xFF000000);
    // Tile-info words: the space cells carry their positions; the marker
    // cell packs low byte 4, column 0, row 0, style bit 0.
    assert_eq!(nc.big_buffer[8], (1 << 8) | (0 << 16));
    assert_eq!(nc.big_buffer[9], (0 << 8) | (1 << 16));
    assert_eq!(nc.big_buffer[10], (1 << 8) | (1 << 16));
    assert_eq!(nc.big_buffer[11], 0x01_00_00_04);
}

#[test]
fn inverse_video_swaps_resolved_colors() {
    let font = font_300();
    let p = pal();
    let mut cell = plain_cell(' ');
    cell.fg = ColorSpec::Idx(2);
    cell.bg = ColorSpec::Idx(3);
    cell.inverse = true;
    let snap = TermSnapshot::new(1, 1, vec![cell]).expect("snapshot fits");
    let mut nc = NeoCharRender::new_with(2, 1, 1).expect("grid fits");
    nc.put_parser_data_into_buffers(&font, &p, &snap);
    // Background segment takes the resolved foreground, and the foreground
    // group the resolved background.
    assert_eq!(nc.big_buffer[0], p[2] | 0xFF000000);
    assert_eq!(nc.big_buffer[1], p[3] | 0xFF000000);
}

#[test]
fn style_bits_pack_bold_dim_italic() {
    let font = font_300();
    let p = pal();
    let mut cell = plain_cell(' ');
    cell.bold = true;
    cell.dim = true;
    cell.italic = true;
    let snap = TermSnapshot::new(1, 1, vec![cell]).expect("snapshot fits");
    let mut nc = NeoCharRender::new_with(2, 1, 1).expect("grid fits");
    nc.put_parser_data_into_buffers(&font, &p, &snap);
    assert_eq!(nc.big_buffer[2] >> 24, 0b111);
}

#[test]
fn encoding_twice_is_byte_identical() {
    let font = font_300();
    let p = pal();
    let mut cells = Vec::new();
    for i in 0..12u8 {
        let mut c = plain_cell(if i % 3 == 0 { 'A' } else { ' ' });
        c.fg = ColorSpec::Idx(i);
        c.bold = i % 2 == 0;
        c.inverse = i % 5 == 0;
        cells.push(c);
    }
    let snap = TermSnapshot::new(3, 4, cells).expect("snapshot fits");
    let mut nc1 = NeoCharRender::new_with(2, 3, 4).expect("grid fits");
    let mut nc2 = NeoCharRender::new_with(2, 3, 4).expect("grid fits");
    nc1.put_parser_data_into_buffers(&font, &p, &snap);
    nc2.put_parser_data_into_buffers(&font, &p, &snap);
    nc1.put_parser_data_into_buffers(&font, &p, &snap);
    assert_eq!(nc1.big_buffer, nc2.big_buffer);
    assert_eq!(nc1.fg_texture_counts, nc2.fg_texture_counts);
}

#[test]
fn draw_counts_cover_every_cell() {
    let font = font_300();
    let p = pal();
    let cells = vec![plain_cell('A'), plain_cell(' '), plain_cell('?'), plain_cell('A')];
    let snap = TermSnapshot::new(2, 2, cells).expect("snapshot fits");
    let mut nc = NeoCharRender::new_with(2, 2, 2).expect("grid fits");
    nc.put_parser_data_into_buffers(&font, &p, &snap);
    let total: usize = nc.fg_texture_counts.iter().sum();
    assert_eq!(total, 4);
    assert_eq!(nc.fg_texture_counts, vec![2, 2]);
}

#[test]
fn compositor_sized_from_font_and_maxima() {
    let font = font_300();
    let nc = NeoCharRender::new(&font, 25, 79);
    assert_eq!(nc.rows, 26);
    assert_eq!(nc.cols, 80);
    assert_eq!(nc.fg_texture_counts.len(), 2);
    assert_eq!(nc.big_buffer.len(), 3 * 26 * 80);
}
