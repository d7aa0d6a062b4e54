use tty_atlas::font::BitmapFont;
use tty_atlas::screen::{expand_row, trunc_row, CharMap};

fn small_font() -> BitmapFont {
    // Space is glyph 2 so the fill values are visibly nontrivial.
    let glyphs = vec![vec![0u8; 4]; 5];
    let chars = vec![('x', 0usize), ('?', 1usize), (' ', 2usize), ('A', 3usize), ('B', 4usize)];
    BitmapFont::new(8, 4, glyphs, chars).expect("valid font")
}

fn pal_16() -> Vec<u32> {
    // Entry 0, the default color, has a clear top byte and nonzero color
    // bits, so the fill word must carry both the glyph byte and the color.
    let mut p = vec![0u32; 16];
    for (i, slot) in p.iter_mut().enumerate() {
        *slot = 0x00AABBCC + (i as u32) * 0x101010;
    }
    p
}

fn pal_256() -> Vec<u32> {
    let mut p = vec![0u32; 256];
    for (i, slot) in p.iter_mut().enumerate() {
        *slot = i as u32;
    }
    p
}

fn fill_lower() -> u32 {
    // Space is glyph 2: its low byte in the top byte, combined with the
    // 24 color bits of the default palette entry.
    ((2u32 & 0xFF) << 24) | (pal_16()[0] & 0x00FFFFFF)
}

fn lengths_consistent(cm: &CharMap) {
    let n = cm.screen_width * cm.screen_height;
    assert_eq!(cm.screen_lower.len(), n);
    assert_eq!(cm.screen_upper.len(), n);
    assert_eq!(cm.screen_bg.len(), n);
}

#[test]
fn trunc_row_keeps_row_prefixes() {
    let v = vec![1, 2, 3, 4, 5, 6];
    assert_eq!(trunc_row(&v, 3, 2), vec![1, 2, 4, 5]);
    assert_eq!(trunc_row(&v, 3, 0), Vec::<i32>::new());
}

#[test]
fn expand_row_pads_rows_on_the_right() {
    let v = vec![1, 2, 3, 4];
    assert_eq!(expand_row(&v, 2, 3, 9), vec![1, 2, 9, 3, 4, 9]);
    let empty: Vec<i32> = Vec::new();
    assert_eq!(expand_row(&empty, 0, 3, 7), vec![7, 7, 7]);
}

#[test]
fn new_grid_is_space_filled() {
    let cm = CharMap::new(small_font(), 3, 2, pal_16(), pal_256());
    lengths_consistent(&cm);
    assert_eq!(cm.screen_width, 3);
    assert_eq!(cm.screen_height, 2);
    for i in 0..6 {
        assert_eq!(cm.screen_lower[i], fill_lower());
        assert_eq!(cm.screen_upper[i], 0);
        assert_eq!(cm.screen_bg[i], pal_16()[0]);
    }
}

#[test]
fn put_char_16_writes_one_cell() {
    let mut cm = CharMap::new(small_font(), 3, 2, pal_16(), pal_256());
    cm.put_char_16('A', 5, 7, 1, 2);
    lengths_consistent(&cm);
    let loc = 1 * 3 + 2;
    // 'A' is glyph 3: low byte 3 in the top byte, foreground merged in.
    assert_eq!(cm.screen_lower[loc], (3u32 << 24) | pal_16()[5]);
    assert_eq!(cm.screen_upper[loc], 0);
    assert_eq!(cm.screen_bg[loc], pal_16()[7]);
    // Its neighbor still holds the fill.
    assert_eq!(cm.screen_lower[loc - 1], fill_lower());
}

#[test]
fn put_char_true_and_256_use_their_palettes() {
    let mut cm = CharMap::new(small_font(), 2, 1, pal_16(), pal_256());
    cm.put_char_256('B', 200, 100, 0, 0);
    assert_eq!(cm.screen_lower[0], (4u32 << 24) | pal_256()[200]);
    assert_eq!(cm.screen_bg[0], pal_256()[100]);
    cm.put_char_true('x', 0x00123456, 0x00654321, 0, 1);
    assert_eq!(cm.screen_lower[1], 0x00123456);
    assert_eq!(cm.screen_bg[1], 0x00654321);
    lengths_consistent(&cm);
}

#[test]
fn unmapped_char_falls_back_to_question_mark() {
    let mut cm = CharMap::new(small_font(), 1, 1, pal_16(), pal_256());
    cm.put_char_16('z', 0, 0, 0, 0);
    // 'z' is unmapped and the font lacks the replacement character, so the
    // question mark's glyph 1 is drawn.
    assert_eq!(cm.screen_lower[0], (1u32 << 24) | pal_16()[0]);
}

#[test]
fn resize_same_size_twice_is_idempotent() {
    let mut cm = CharMap::new(small_font(), 4, 3, pal_16(), pal_256());
    cm.put_char_16('A', 1, 2, 0, 0);
    cm.put_char_16('B', 3, 4, 2, 3);
    cm.resize(5, 4);
    let lower = cm.screen_lower.clone();
    let upper = cm.screen_upper.clone();
    let bg = cm.screen_bg.clone();
    cm.resize(5, 4);
    assert_eq!(cm.screen_lower, lower);
    assert_eq!(cm.screen_upper, upper);
    assert_eq!(cm.screen_bg, bg);
    lengths_consistent(&cm);
}

#[test]
fn resize_taller_preserves_rows_and_fills_new_ones() {
    let mut cm = CharMap::new(small_font(), 3, 2, pal_16(), pal_256());
    cm.put_char_16('A', 1, 2, 0, 1);
    cm.put_char_16('B', 3, 4, 1, 0);
    let before = cm.screen_lower.clone();
    cm.resize(3, 4);
    lengths_consistent(&cm);
    for i in 0..6 {
        assert_eq!(cm.screen_lower[i], before[i]);
    }
    for i in 6..12 {
        assert_eq!(cm.screen_lower[i], fill_lower());
        assert_eq!(cm.screen_bg[i], pal_16()[0]);
    }
}

#[test]
fn resize_shorter_truncates_without_reflow() {
    let mut cm = CharMap::new(small_font(), 3, 4, pal_16(), pal_256());
    cm.put_char_16('A', 1, 2, 0, 2);
    cm.put_char_16('B', 3, 4, 3, 0);
    let before = cm.screen_lower.clone();
    cm.resize(3, 1);
    lengths_consistent(&cm);
    assert_eq!(cm.screen_lower.len(), 3);
    for i in 0..3 {
        assert_eq!(cm.screen_lower[i], before[i]);
    }
}

#[test]
fn resize_narrower_truncates_each_row() {
    let mut cm = CharMap::new(small_font(), 3, 2, pal_16(), pal_256());
    cm.put_char_16('A', 1, 2, 0, 0);
    cm.put_char_16('B', 3, 4, 1, 1);
    let before = cm.screen_lower.clone();
    cm.resize(2, 2);
    lengths_consistent(&cm);
    assert_eq!(cm.screen_lower[0], before[0]);
    assert_eq!(cm.screen_lower[1], before[1]);
    assert_eq!(cm.screen_lower[2], before[3]);
    assert_eq!(cm.screen_lower[3], before[4]);
}

#[test]
fn resize_wider_pads_each_row() {
    let mut cm = CharMap::new(small_font(), 2, 2, pal_16(), pal_256());
    cm.put_char_16('A', 1, 2, 0, 0);
    cm.put_char_16('B', 3, 4, 1, 1);
    let before = cm.screen_lower.clone();
    cm.resize(3, 2);
    lengths_consistent(&cm);
    assert_eq!(cm.screen_lower[0], before[0]);
    assert_eq!(cm.screen_lower[1], before[1]);
    assert_eq!(cm.screen_lower[2], fill_lower());
    assert_eq!(cm.screen_lower[3], before[2]);
    assert_eq!(cm.screen_lower[4], before[3]);
    assert_eq!(cm.screen_lower[5], fill_lower());
}

#[test]
fn scroll_up_shifts_rows_and_fills_tail() {
    let mut cm = CharMap::new(small_font(), 2, 3, pal_16(), pal_256());
    cm.put_char_16('A', 1, 2, 1, 0);
    cm.put_char_16('B', 3, 4, 1, 1);
    let before = cm.screen_lower.clone();
    cm.scroll_up(1);
    lengths_consistent(&cm);
    assert_eq!(cm.screen_lower[0], before[2]);
    assert_eq!(cm.screen_lower[1], before[3]);
    assert_eq!(cm.screen_lower[4], fill_lower());
    assert_eq!(cm.screen_lower[5], fill_lower());
}

#[test]
fn cumulative_scrolls_of_full_height_blank_the_screen() {
    // Four single-row scrolls on a four-row grid leave only fill cells.
    let mut cm = CharMap::new(small_font(), 2, 4, pal_16(), pal_256());
    for row in 0..4 {
        cm.put_char_16('A', 1, 2, row, 0);
        cm.put_char_16('B', 3, 4, row, 1);
    }
    for _ in 0..4 {
        cm.scroll_up(1);
    }
    lengths_consistent(&cm);
    for i in 0..8 {
        assert_eq!(cm.screen_lower[i], fill_lower());
        assert_eq!(cm.screen_upper[i], 0);
        assert_eq!(cm.screen_bg[i], pal_16()[0]);
    }
}

#[test]
fn scrolls_compose() {
    let mut a = CharMap::new(small_font(), 2, 4, pal_16(), pal_256());
    let mut b = CharMap::new(small_font(), 2, 4, pal_16(), pal_256());
    for row in 0..4 {
        a.put_char_16('A', row, row, row, 0);
        b.put_char_16('A', row, row, row, 0);
    }
    a.scroll_up(1);
    a.scroll_up(2);
    b.scroll_up(3);
    assert_eq!(a.screen_lower, b.screen_lower);
    assert_eq!(a.screen_upper, b.screen_upper);
    assert_eq!(a.screen_bg, b.screen_bg);
}

#[test]
fn clear_fills_every_cell() {
    let mut cm = CharMap::new(small_font(), 3, 3, pal_16(), pal_256());
    for row in 0..3 {
        cm.put_char_16('B', 1, 2, row, row);
    }
    cm.clear();
    lengths_consistent(&cm);
    for i in 0..9 {
        assert_eq!(cm.screen_lower[i], fill_lower());
        assert_eq!(cm.screen_bg[i], pal_16()[0]);
    }
}

#[test]
fn zero_sized_grid_resizes_to_fill() {
    let mut cm = CharMap::new(small_font(), 0, 0, pal_16(), pal_256());
    lengths_consistent(&cm);
    assert_eq!(cm.screen_lower.len(), 0);
    cm.resize(2, 2);
    lengths_consistent(&cm);
    for i in 0..4 {
        assert_eq!(cm.screen_lower[i], fill_lower());
    }
}
