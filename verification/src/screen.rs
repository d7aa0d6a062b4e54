//! The terminal's visible cell grid.
//!
//! A `CharMap` owns three parallel row-major arrays of `width * height`
//! cells: glyph low byte fused with the 24-bit foreground color, glyph high
//! byte (the atlas index), and 24-bit background color. Resizing adjusts
//! each existing row before the row count, so a simultaneous width and
//! height change never reflows cells across rows; scrolling shifts whole
//! rows toward the top and refills the exposed tail with the space glyph
//! and default colors.

use vstd::prelude::*;
use crate::font::{fallback_index_spec, lookup_spec, BitmapFont};

verus! {

use vstd::arithmetic::div_mod::{lemma_fundamental_div_mod, lemma_fundamental_div_mod_converse};
use vstd::arithmetic::mul::lemma_mul_is_commutative;

/// Each row of `cells` (rows are `oldsz` cells long) truncated to its first
/// `newsz` cells.
pub open spec fn row_trunc_spec<T>(cells: Seq<T>, oldsz: int, newsz: int) -> Seq<T> {
    Seq::new(
        (((cells.len() as int) / oldsz) * newsz) as nat,
        |i: int| cells[(i / newsz) * oldsz + i % newsz],
    )
}

/// Each row of `cells` padded on the right with `fill` up to `newsz` cells;
/// with no old row length to go by, a single fresh row of `fill`.
pub open spec fn row_expand_spec<T>(cells: Seq<T>, oldsz: int, newsz: int, fill: T) -> Seq<T> {
    if oldsz == 0 {
        Seq::new(newsz as nat, |i: int| fill)
    } else {
        Seq::new(
            (((cells.len() as int) / oldsz) * newsz) as nat,
            |i: int|
                if i % newsz < oldsz {
                    cells[(i / newsz) * oldsz + i % newsz]
                } else {
                    fill
                },
        )
    }
}

/// `cells` cut or extended with `fill` to exactly `n` cells.
pub open spec fn flat_resize_spec<T>(cells: Seq<T>, n: int, fill: T) -> Seq<T> {
    Seq::new(n as nat, |i: int| if i < cells.len() { cells[i] } else { fill })
}

/// The whole effect of a resize on one cell array: cell `(row, col)` of the
/// new `neww`-by-`newh` grid keeps its old value where both coordinates
/// existed before, and takes `fill` where either is new.
pub open spec fn resize_grid_spec<T>(
    cells: Seq<T>,
    oldw: int,
    oldh: int,
    neww: int,
    newh: int,
    fill: T,
) -> Seq<T> {
    Seq::new(
        (neww * newh) as nat,
        |i: int|
            if i / neww < oldh && i % neww < oldw {
                cells[(i / neww) * oldw + i % neww]
            } else {
                fill
            },
    )
}

/// The effect of removing the first `shift` cells and exposing `shift`
/// fresh `fill` cells at the tail.
pub open spec fn scroll_spec<T>(s: Seq<T>, shift: int, fill: T) -> Seq<T> {
    Seq::new(s.len(), |i: int| if i < s.len() - shift { s[i + shift] } else { fill })
}

/// A flat index below `rows * newsz` decomposes into a row below `rows`,
/// whose cells all lie inside the first `rows` rows of `oldsz`-cell rows.
proof fn lemma_flat_index(i: int, rows: int, oldsz: int, newsz: int)
    requires
        0 <= i,
        i < rows * newsz,
        1 <= newsz,
        0 <= oldsz,
    ensures
        0 <= i / newsz < rows,
        (i / newsz) * oldsz + oldsz <= rows * oldsz,
        0 <= i % newsz < newsz,
{
    lemma_fundamental_div_mod(i, newsz);
    assert(0 <= i / newsz < rows) by (nonlinear_arith)
        requires
            i == newsz * (i / newsz) + i % newsz,
            0 <= i % newsz < newsz,
            0 <= i,
            i < rows * newsz,
            1 <= newsz,
    ;
    assert((i / newsz) * oldsz + oldsz <= rows * oldsz) by (nonlinear_arith)
        requires
            i / newsz < rows,
            0 <= oldsz,
    ;
}

/// Truncates each `oldsz`-cell row of `buf` to its first `newsz` cells.
pub fn trunc_row<T: Copy>(buf: &Vec<T>, oldsz: usize, newsz: usize) -> (r: Vec<T>)
    requires
        1 <= oldsz,
        newsz <= oldsz,
        (buf@.len() as int) % (oldsz as int) == 0,
        (buf@.len() as int) / (oldsz as int) <= 0xFFFF,
        newsz <= 0xFFFF,
    ensures
        r@ == row_trunc_spec(buf@, oldsz as int, newsz as int),
{
    let rows = buf.len() / oldsz;
    proof {
        lemma_fundamental_div_mod(buf@.len() as int, oldsz as int);
        lemma_mul_is_commutative(oldsz as int, rows as int);
    }
    proof {
        assert(rows * newsz <= 0xFFFF * 0xFFFF) by (nonlinear_arith)
            requires
                0 <= rows <= 0xFFFF,
                0 <= newsz <= 0xFFFF,
        ;
    }
    let total = rows * newsz;
    let mut r: Vec<T> = Vec::new();
    let mut i: usize = 0;
    while i < total
        invariant
            i <= total,
            total == rows * newsz,
            rows == (buf@.len() as int) / (oldsz as int),
            1 <= oldsz,
            newsz <= oldsz,
            buf@.len() == rows * oldsz,
            buf@.len() <= usize::MAX,
            r@.len() == i,
            forall|j: int|
                0 <= j < i ==> r@[j] == buf@[(j / (newsz as int)) * oldsz + j % (newsz as int)],
        decreases total - i,
    {
        proof {
            lemma_flat_index(i as int, rows as int, oldsz as int, newsz as int);
        }
        let src = (i / newsz) * oldsz + i % newsz;
        r.push(buf[src]);
        i = i + 1;
    }
    proof {
        assert(r@ =~= row_trunc_spec(buf@, oldsz as int, newsz as int));
    }
    r
}

/// Pads each `oldsz`-cell row of `buf` on the right with `fill` up to
/// `newsz` cells; with `oldsz` zero there are no rows to go by, and one
/// fresh row of `newsz` `fill` cells is produced.
pub fn expand_row<T: Copy>(buf: &Vec<T>, oldsz: usize, newsz: usize, fill: T) -> (r: Vec<T>)
    requires
        oldsz <= newsz,
        oldsz >= 1 ==> (buf@.len() as int) % (oldsz as int) == 0,
        oldsz >= 1 ==> (buf@.len() as int) / (oldsz as int) <= 0xFFFF,
        newsz <= 0xFFFF,
    ensures
        r@ == row_expand_spec(buf@, oldsz as int, newsz as int, fill),
{
    if oldsz == 0 {
        let mut r: Vec<T> = Vec::new();
        let mut i: usize = 0;
        while i < newsz
            invariant
                i <= newsz,
                r@.len() == i,
                forall|j: int| 0 <= j < i ==> r@[j] == fill,
            decreases newsz - i,
        {
            r.push(fill);
            i = i + 1;
        }
        proof {
            assert(r@ =~= row_expand_spec(buf@, 0, newsz as int, fill));
        }
        return r;
    }
    let rows = buf.len() / oldsz;
    proof {
        lemma_fundamental_div_mod(buf@.len() as int, oldsz as int);
        lemma_mul_is_commutative(oldsz as int, rows as int);
    }
    proof {
        assert(rows * newsz <= 0xFFFF * 0xFFFF) by (nonlinear_arith)
            requires
                0 <= rows <= 0xFFFF,
                0 <= newsz <= 0xFFFF,
        ;
    }
    let total = rows * newsz;
    let mut r: Vec<T> = Vec::new();
    let mut i: usize = 0;
    while i < total
        invariant
            i <= total,
            total == rows * newsz,
            rows == (buf@.len() as int) / (oldsz as int),
            1 <= oldsz,
            oldsz <= newsz,
            buf@.len() == rows * oldsz,
            buf@.len() <= usize::MAX,
            r@.len() == i,
            forall|j: int|
                0 <= j < i ==> r@[j] == (if j % (newsz as int) < oldsz {
                    buf@[(j / (newsz as int)) * oldsz + j % (newsz as int)]
                } else {
                    fill
                }),
        decreases total - i,
    {
        proof {
            lemma_flat_index(i as int, rows as int, oldsz as int, newsz as int);
        }
        let col = i % newsz;
        let cell = if col < oldsz {
            buf[(i / newsz) * oldsz + col]
        } else {
            fill
        };
        r.push(cell);
        i = i + 1;
    }
    proof {
        assert(r@ =~= row_expand_spec(buf@, oldsz as int, newsz as int, fill));
    }
    r
}

/// `v` cut or extended with `fill` to exactly `n` cells.
fn flat_resize<T: Copy>(v: &Vec<T>, n: usize, fill: T) -> (r: Vec<T>)
    ensures
        r@ == flat_resize_spec(v@, n as int, fill),
{
    let mut r: Vec<T> = Vec::new();
    let mut i: usize = 0;
    while i < n
        invariant
            i <= n,
            r@.len() == i,
            forall|j: int|
                0 <= j < i ==> r@[j] == (if j < v@.len() {
                    v@[j]
                } else {
                    fill
                }),
        decreases n - i,
    {
        let cell = if i < v.len() {
            v[i]
        } else {
            fill
        };
        r.push(cell);
        i = i + 1;
    }
    proof {
        assert(r@ =~= flat_resize_spec(v@, n as int, fill));
    }
    r
}


/// The low-byte-with-foreground cell word for glyph index `idx`, before any
/// foreground color is merged in: the glyph's low byte in the top byte.
pub open spec fn glyph_lower_spec(idx: usize) -> u32 {
    ((idx as u32) & 0xFF) << 24
}

/// The high-byte cell value for glyph index `idx`: the atlas the glyph
/// lives in.
pub open spec fn glyph_upper_spec(idx: usize) -> u8 {
    ((idx as u32) >> 8) as u8
}

/// The low cell word every fresh cell is filled with: the space glyph's low
/// byte in the top byte, combined with the 24 color bits of the default
/// palette entry.
pub open spec fn space_fill_lower_spec(chars: Seq<(char, usize)>, pal0: u32) -> u32 {
    glyph_lower_spec(lookup_spec(chars, ' ').unwrap()) | (pal0 & 0x00FFFFFF)
}

/// The high cell byte every fresh cell is filled with: the space glyph's
/// atlas index.
pub open spec fn space_fill_upper_spec(chars: Seq<(char, usize)>) -> u8 {
    glyph_upper_spec(lookup_spec(chars, ' ').unwrap())
}

/// The terminal's visible cell grid: three parallel row-major arrays of
/// `screen_width * screen_height` cells.
pub struct CharMap {
    /// The font whose glyphs the cells reference.
    pub font: BitmapFont,
    /// Width of the screen in cells.
    pub screen_width: usize,
    /// Height of the screen in cells.
    pub screen_height: usize,
    /// Lower bytes of the characters on the screen, fused with their 24-bit
    /// foreground colors.
    pub screen_lower: Vec<u32>,
    /// 24-bit background colors.
    pub screen_bg: Vec<u32>,
    /// Upper bytes of the characters on the screen, used to select the
    /// atlas texture.
    pub screen_upper: Vec<u8>,
    /// The 16-entry palette; entry 0 doubles as the default background.
    pub pal_16: Vec<u32>,
    /// The 256-entry palette.
    pub pal_256: Vec<u32>,
}

impl CharMap {
    /// The grid's standing invariant: a usable font, full palettes, bounded
    /// dimensions, and all three cell arrays of exactly
    /// `screen_width * screen_height` cells.
    pub open spec fn wf(&self) -> bool {
        &&& self.font.wf()
        &&& self.pal_16@.len() == 16
        &&& self.pal_256@.len() == 256
        &&& self.screen_width <= 0xFFFF
        &&& self.screen_height <= 0xFFFF
        &&& self.screen_lower@.len() == self.screen_width * self.screen_height
        &&& self.screen_bg@.len() == self.screen_width * self.screen_height
        &&& self.screen_upper@.len() == self.screen_width * self.screen_height
    }

    /// The low word fresh cells take.
    pub open spec fn fill_lower(&self) -> u32 {
        space_fill_lower_spec(self.font.chars@, self.pal_16@[0])
    }

    /// The high byte fresh cells take.
    pub open spec fn fill_upper(&self) -> u8 {
        space_fill_upper_spec(self.font.chars@)
    }

    /// The background color fresh cells take.
    pub open spec fn fill_bg(&self) -> u32 {
        self.pal_16@[0]
    }

    /// Gets the space character's lower and upper display values, the fill
    /// for fresh cells.
    fn get_space(&self) -> (r: (u32, u8))
        requires
            self.font.wf(),
            self.pal_16@.len() == 16,
        ensures
            r.0 == self.fill_lower(),
            r.1 == self.fill_upper(),
    {
        let space_index = match self.font.get_glyph_index(' ') {
            Some(i) => i,
            None => 0,
        };
        proof {
            crate::font::lemma_lookup_in_table(self.font.chars@, ' ');
        }
        let idx32: u32 = space_index as u32;
        proof {
            assert((idx32 >> 8u32) <= 0xFF) by (bit_vector)
                requires
                    idx32 <= 0xFFFFu32,
            ;
        }
        let space_lower_fill = ((idx32 & 0xFF) << 24) | (self.pal_16[0] & 0x00FFFFFF);
        let space_upper = (idx32 >> 8) as u8;
        (space_lower_fill, space_upper)
    }

    /// The lower and upper display values for character `c`, resolved
    /// through the unmapped-character fallback chain.
    fn lower_upper(&self, c: char) -> (r: (u32, u8))
        requires
            self.font.wf(),
        ensures
            r.0 == glyph_lower_spec(fallback_index_spec(self.font.chars@, c)),
            r.1 == glyph_upper_spec(fallback_index_spec(self.font.chars@, c)),
    {
        let i = self.font.fallback_index(c);
        let idx32: u32 = i as u32;
        proof {
            assert((idx32 >> 8u32) <= 0xFF) by (bit_vector)
                requires
                    idx32 <= 0xFFFFu32,
            ;
        }
        ((idx32 & 0xFF) << 24, (idx32 >> 8) as u8)
    }

    /// Writes one cell's three values at `(row, col)`.
    fn put_lower_upper_bg(&mut self, row: usize, col: usize, lower: u32, upper: u8, bg: u32)
        requires
            old(self).wf(),
            row < old(self).screen_height,
            col < old(self).screen_width,
        ensures
            final(self).wf(),
            final(self).font == old(self).font,
            final(self).screen_width == old(self).screen_width,
            final(self).screen_height == old(self).screen_height,
            final(self).pal_16@ == old(self).pal_16@,
            final(self).pal_256@ == old(self).pal_256@,
            final(self).screen_lower@ == old(self).screen_lower@.update(
                (row * old(self).screen_width + col) as int,
                lower,
            ),
            final(self).screen_upper@ == old(self).screen_upper@.update(
                (row * old(self).screen_width + col) as int,
                upper,
            ),
            final(self).screen_bg@ == old(self).screen_bg@.update(
                (row * old(self).screen_width + col) as int,
                bg,
            ),
    {
        let total_cells = self.screen_lower.len();
        proof {
            let ghost sw = old(self).screen_width as int;
            let ghost sh = old(self).screen_height as int;
            assert(row * sw + col < sw * sh) by (nonlinear_arith)
                requires
                    row < sh,
                    col < sw,
                    0 <= row,
                    0 <= col,
            ;
            assert(row * sw + col < total_cells);
        }
        let loc = (row * self.screen_width) + col;
        self.screen_lower.set(loc, lower);
        self.screen_upper.set(loc, upper);
        self.screen_bg.set(loc, bg);
    }

    /// Writes character `c` at `(row, col)` with foreground and background
    /// colors drawn from the 16-entry palette.
    pub fn put_char_16(&mut self, c: char, fg: usize, bg: usize, row: usize, col: usize)
        requires
            old(self).wf(),
            fg < 16,
            bg < 16,
            row < old(self).screen_height,
            col < old(self).screen_width,
        ensures
            final(self).wf(),
            final(self).font == old(self).font,
            final(self).screen_width == old(self).screen_width,
            final(self).screen_height == old(self).screen_height,
            final(self).pal_16@ == old(self).pal_16@,
            final(self).pal_256@ == old(self).pal_256@,
            final(self).screen_lower@ == old(self).screen_lower@.update(
                (row * old(self).screen_width + col) as int,
                glyph_lower_spec(fallback_index_spec(old(self).font.chars@, c)) | old(
                    self,
                ).pal_16@[fg as int],
            ),
            final(self).screen_upper@ == old(self).screen_upper@.update(
                (row * old(self).screen_width + col) as int,
                glyph_upper_spec(fallback_index_spec(old(self).font.chars@, c)),
            ),
            final(self).screen_bg@ == old(self).screen_bg@.update(
                (row * old(self).screen_width + col) as int,
                old(self).pal_16@[bg as int],
            ),
    {
        let (lower, upper) = self.lower_upper(c);
        let lower = lower | self.pal_16[fg];
        let bg = self.pal_16[bg];
        self.put_lower_upper_bg(row, col, lower, upper, bg);
    }

    /// Writes character `c` at `(row, col)` with foreground and background
    /// colors drawn from the 256-entry palette.
    pub fn put_char_256(&mut self, c: char, fg: usize, bg: usize, row: usize, col: usize)
        requires
            old(self).wf(),
            fg < 256,
            bg < 256,
            row < old(self).screen_height,
            col < old(self).screen_width,
        ensures
            final(self).wf(),
            final(self).font == old(self).font,
            final(self).screen_width == old(self).screen_width,
            final(self).screen_height == old(self).screen_height,
            final(self).pal_16@ == old(self).pal_16@,
            final(self).pal_256@ == old(self).pal_256@,
            final(self).screen_lower@ == old(self).screen_lower@.update(
                (row * old(self).screen_width + col) as int,
                glyph_lower_spec(fallback_index_spec(old(self).font.chars@, c)) | old(
                    self,
                ).pal_256@[fg as int],
            ),
            final(self).screen_upper@ == old(self).screen_upper@.update(
                (row * old(self).screen_width + col) as int,
                glyph_upper_spec(fallback_index_spec(old(self).font.chars@, c)),
            ),
            final(self).screen_bg@ == old(self).screen_bg@.update(
                (row * old(self).screen_width + col) as int,
                old(self).pal_256@[bg as int],
            ),
    {
        let (lower, upper) = self.lower_upper(c);
        let lower = lower | self.pal_256[fg];
        let bg = self.pal_256[bg];
        self.put_lower_upper_bg(row, col, lower, upper, bg);
    }

    /// Writes character `c` at `(row, col)` with direct 24-bit foreground
    /// and background colors.
    pub fn put_char_true(&mut self, c: char, fg: u32, bg: u32, row: usize, col: usize)
        requires
            old(self).wf(),
            row < old(self).screen_height,
            col < old(self).screen_width,
        ensures
            final(self).wf(),
            final(self).font == old(self).font,
            final(self).screen_width == old(self).screen_width,
            final(self).screen_height == old(self).screen_height,
            final(self).pal_16@ == old(self).pal_16@,
            final(self).pal_256@ == old(self).pal_256@,
            final(self).screen_lower@ == old(self).screen_lower@.update(
                (row * old(self).screen_width + col) as int,
                glyph_lower_spec(fallback_index_spec(old(self).font.chars@, c)) | fg,
            ),
            final(self).screen_upper@ == old(self).screen_upper@.update(
                (row * old(self).screen_width + col) as int,
                glyph_upper_spec(fallback_index_spec(old(self).font.chars@, c)),
            ),
            final(self).screen_bg@ == old(self).screen_bg@.update(
                (row * old(self).screen_width + col) as int,
                bg,
            ),
    {
        let (lower, upper) = self.lower_upper(c);
        let lower = lower | fg;
        self.put_lower_upper_bg(row, col, lower, upper, bg);
    }
}


/// Truncating or padding each row to the new width and then cutting or
/// extending the flat array to the new cell count together have exactly the
/// per-cell effect `resize_grid_spec` describes.
proof fn lemma_resize_steps<T>(
    cells: Seq<T>,
    oldw: int,
    oldh: int,
    neww: int,
    newh: int,
    fill: T,
    mid: Seq<T>,
)
    requires
        cells.len() == oldw * oldh,
        0 <= oldw <= 0xFFFF,
        0 <= oldh <= 0xFFFF,
        0 <= neww <= 0xFFFF,
        0 <= newh <= 0xFFFF,
        mid == (if neww < oldw {
            row_trunc_spec(cells, oldw, neww)
        } else if oldw < neww {
            row_expand_spec(cells, oldw, neww, fill)
        } else {
            cells
        }),
    ensures
        flat_resize_spec(mid, neww * newh, fill) == resize_grid_spec(
            cells,
            oldw,
            oldh,
            neww,
            newh,
            fill,
        ),
{
    let lhs = flat_resize_spec(mid, neww * newh, fill);
    let rhs = resize_grid_spec(cells, oldw, oldh, neww, newh, fill);
    assert(neww * newh >= 0) by (nonlinear_arith)
        requires
            0 <= neww,
            0 <= newh,
    ;
    assert forall|i: int| 0 <= i < neww * newh implies lhs[i] == rhs[i] by {
        assert(neww >= 1) by (nonlinear_arith)
            requires
                0 <= i < neww * newh,
                0 <= neww,
        ;
        lemma_fundamental_div_mod(i, neww);
        let row = i / neww;
        let col = i % neww;
        assert(0 <= row && 0 <= col < neww) by (nonlinear_arith)
            requires
                i == neww * row + col,
                col == i % neww,
                row == i / neww,
                0 <= i,
                1 <= neww,
        ;
        if oldw == 0 {
            assert(mid == row_expand_spec(cells, 0, neww, fill));
            assert(lhs[i] == fill);
            assert(rhs[i] == fill);
        } else {
            // All three width-step shapes hold oldh rows of neww cells.
            lemma_mul_is_commutative(oldw, oldh);
            lemma_fundamental_div_mod_converse(cells.len() as int, oldw, oldh, 0);
            assert(mid.len() == oldh * neww) by {
                if neww != oldw {
                    assert(mid.len() == ((cells.len() as int) / oldw) * neww);
                } else {
                    lemma_mul_is_commutative(oldw, oldh);
                    assert(cells.len() == oldh * neww);
                }
            }
            if row < oldh {
                assert(i < oldh * neww) by (nonlinear_arith)
                    requires
                        i == neww * row + col,
                        0 <= col < neww,
                        row < oldh,
                        1 <= neww,
                ;
                assert(lhs[i] == mid[i]);
                if neww < oldw {
                    assert(mid[i] == cells[row * oldw + col]);
                    assert(rhs[i] == cells[row * oldw + col]);
                } else if oldw < neww {
                    if col < oldw {
                        assert(mid[i] == cells[row * oldw + col]);
                        assert(rhs[i] == cells[row * oldw + col]);
                    } else {
                        assert(mid[i] == fill);
                        assert(rhs[i] == fill);
                    }
                } else {
                    assert(mid[i] == cells[i]);
                    assert(i == row * oldw + col) by (nonlinear_arith)
                        requires
                            i == neww * row + col,
                            neww == oldw,
                    ;
                    assert(rhs[i] == cells[row * oldw + col]);
                }
            } else {
                assert(i >= oldh * neww) by (nonlinear_arith)
                    requires
                        i == neww * row + col,
                        0 <= col,
                        row >= oldh,
                        0 <= oldh,
                        1 <= neww,
                ;
                assert(lhs[i] == fill);
                assert(rhs[i] == fill);
            }
        }
    }
    assert(lhs =~= rhs);
}

impl CharMap {
    /// Brings the grid to `term_width` by `term_height` cells. Each
    /// existing row is truncated or padded to the new width first; the row
    /// count is then cut or extended, so cells never reflow across rows.
    /// Fresh cells take the space glyph and the default colors.
    pub fn resize(&mut self, term_width: usize, term_height: usize)
        requires
            old(self).wf(),
            term_width <= 0xFFFF,
            term_height <= 0xFFFF,
        ensures
            final(self).wf(),
            final(self).font == old(self).font,
            final(self).pal_16@ == old(self).pal_16@,
            final(self).pal_256@ == old(self).pal_256@,
            final(self).screen_width == term_width,
            final(self).screen_height == term_height,
            final(self).screen_lower@ == resize_grid_spec(
                old(self).screen_lower@,
                old(self).screen_width as int,
                old(self).screen_height as int,
                term_width as int,
                term_height as int,
                old(self).fill_lower(),
            ),
            final(self).screen_upper@ == resize_grid_spec(
                old(self).screen_upper@,
                old(self).screen_width as int,
                old(self).screen_height as int,
                term_width as int,
                term_height as int,
                old(self).fill_upper(),
            ),
            final(self).screen_bg@ == resize_grid_spec(
                old(self).screen_bg@,
                old(self).screen_width as int,
                old(self).screen_height as int,
                term_width as int,
                term_height as int,
                old(self).fill_bg(),
            ),
    {
        let (fill_lower, fill_upper) = self.get_space();
        let fill_bg = self.pal_16[0];
        let oldw = self.screen_width;
        let ghost oldh = self.screen_height as int;
        proof {
            if oldw >= 1 {
                lemma_mul_is_commutative(oldw as int, oldh);
                lemma_fundamental_div_mod_converse(
                    old(self).screen_lower@.len() as int,
                    oldw as int,
                    oldh,
                    0,
                );
            }
        }
        if term_width < oldw {
            let lower = trunc_row(&self.screen_lower, oldw, term_width);
            self.screen_lower = lower;
            let upper = trunc_row(&self.screen_upper, oldw, term_width);
            self.screen_upper = upper;
            let bg = trunc_row(&self.screen_bg, oldw, term_width);
            self.screen_bg = bg;
        } else if term_width > oldw {
            let lower = expand_row(&self.screen_lower, oldw, term_width, fill_lower);
            self.screen_lower = lower;
            let upper = expand_row(&self.screen_upper, oldw, term_width, fill_upper);
            self.screen_upper = upper;
            let bg = expand_row(&self.screen_bg, oldw, term_width, fill_bg);
            self.screen_bg = bg;
        }
        self.screen_width = term_width;
        let ghost mid_lower = self.screen_lower@;
        let ghost mid_upper = self.screen_upper@;
        let ghost mid_bg = self.screen_bg@;
        proof {
            assert(term_width * term_height <= 0xFFFF * 0xFFFF) by (nonlinear_arith)
                requires
                    0 <= term_width <= 0xFFFF,
                    0 <= term_height <= 0xFFFF,
            ;
        }
        let new_n_items = term_width * term_height;
        let lower = flat_resize(&self.screen_lower, new_n_items, fill_lower);
        self.screen_lower = lower;
        let upper = flat_resize(&self.screen_upper, new_n_items, fill_upper);
        self.screen_upper = upper;
        let bg = flat_resize(&self.screen_bg, new_n_items, fill_bg);
        self.screen_bg = bg;
        self.screen_height = term_height;
        proof {
            lemma_resize_steps(
                old(self).screen_lower@,
                oldw as int,
                oldh,
                term_width as int,
                term_height as int,
                old(self).fill_lower(),
                mid_lower,
            );
            lemma_resize_steps(
                old(self).screen_upper@,
                oldw as int,
                oldh,
                term_width as int,
                term_height as int,
                old(self).fill_upper(),
                mid_upper,
            );
            lemma_resize_steps(
                old(self).screen_bg@,
                oldw as int,
                oldh,
                term_width as int,
                term_height as int,
                old(self).fill_bg(),
                mid_bg,
            );
        }
    }
}


/// `v` with its first `shift` cells removed and `shift` `fill` cells
/// exposed at the tail.
fn scroll_vec<T: Copy>(v: &Vec<T>, shift: usize, fill: T) -> (r: Vec<T>)
    requires
        shift <= v@.len(),
    ensures
        r@ == scroll_spec(v@, shift as int, fill),
{
    let len = v.len();
    let mut r: Vec<T> = Vec::new();
    let mut i: usize = 0;
    while i < len
        invariant
            i <= len,
            len == v@.len(),
            shift <= len,
            r@.len() == i,
            forall|j: int|
                0 <= j < i ==> r@[j] == (if j < len - shift {
                    v@[j + shift]
                } else {
                    fill
                }),
        decreases len - i,
    {
        let cell = if i < len - shift {
            v[i + shift]
        } else {
            fill
        };
        r.push(cell);
        i = i + 1;
    }
    proof {
        assert(r@ =~= scroll_spec(v@, shift as int, fill));
    }
    r
}

impl CharMap {
    /// Builds a grid over `font` at the given size, every cell holding the
    /// space glyph and the default colors.
    pub fn new(
        font: BitmapFont,
        screen_width: usize,
        screen_height: usize,
        pal_16: Vec<u32>,
        pal_256: Vec<u32>,
    ) -> (r: CharMap)
        requires
            font.wf(),
            pal_16@.len() == 16,
            pal_256@.len() == 256,
            screen_width <= 0xFFFF,
            screen_height <= 0xFFFF,
        ensures
            r.wf(),
            r.font == font,
            r.screen_width == screen_width,
            r.screen_height == screen_height,
            r.pal_16@ == pal_16@,
            r.pal_256@ == pal_256@,
            forall|i: int|
                0 <= i < screen_width * screen_height ==> r.screen_lower@[i] == r.fill_lower(),
            forall|i: int|
                0 <= i < screen_width * screen_height ==> r.screen_upper@[i] == r.fill_upper(),
            forall|i: int|
                0 <= i < screen_width * screen_height ==> r.screen_bg@[i] == r.fill_bg(),
    {
        let mut this = CharMap {
            font,
            screen_width: 0,
            screen_height: 0,
            screen_lower: Vec::new(),
            screen_bg: Vec::new(),
            screen_upper: Vec::new(),
            pal_16,
            pal_256,
        };
        this.resize(screen_width, screen_height);
        proof {
            assert forall|i: int| 0 <= i < screen_width * screen_height implies
                this.screen_lower@[i] == this.fill_lower() && this.screen_upper@[i]
                == this.fill_upper() && this.screen_bg@[i] == this.fill_bg() by {
                assert(i % (screen_width as int) >= 0);
            }
        }
        this
    }

    /// Removes the first `n_lines` rows, shifting the remainder toward the
    /// top, and fills the exposed trailing rows with the space glyph and
    /// default colors.
    pub fn scroll_up(&mut self, n_lines: usize)
        requires
            old(self).wf(),
            n_lines <= old(self).screen_height,
        ensures
            final(self).wf(),
            final(self).font == old(self).font,
            final(self).pal_16@ == old(self).pal_16@,
            final(self).pal_256@ == old(self).pal_256@,
            final(self).screen_width == old(self).screen_width,
            final(self).screen_height == old(self).screen_height,
            final(self).screen_lower@ == scroll_spec(
                old(self).screen_lower@,
                n_lines * old(self).screen_width as int,
                old(self).fill_lower(),
            ),
            final(self).screen_upper@ == scroll_spec(
                old(self).screen_upper@,
                n_lines * old(self).screen_width as int,
                old(self).fill_upper(),
            ),
            final(self).screen_bg@ == scroll_spec(
                old(self).screen_bg@,
                n_lines * old(self).screen_width as int,
                old(self).fill_bg(),
            ),
    {
        let (fill_lower, fill_upper) = self.get_space();
        let fill_bg = self.pal_16[0];
        proof {
            let ghost sw = old(self).screen_width as int;
            let ghost sh = old(self).screen_height as int;
            assert(n_lines * sw <= sh * sw && sh * sw <= 0xFFFF * 0xFFFF) by (nonlinear_arith)
                requires
                    0 <= n_lines <= sh,
                    0 <= sw <= 0xFFFF,
                    sh <= 0xFFFF,
            ;
            lemma_mul_is_commutative(sw, sh);
        }
        let shift = n_lines * self.screen_width;
        let lower = scroll_vec(&self.screen_lower, shift, fill_lower);
        self.screen_lower = lower;
        let upper = scroll_vec(&self.screen_upper, shift, fill_upper);
        self.screen_upper = upper;
        let bg = scroll_vec(&self.screen_bg, shift, fill_bg);
        self.screen_bg = bg;
    }

    /// Fills every cell with the space glyph and the default colors.
    pub fn clear(&mut self)
        requires
            old(self).wf(),
        ensures
            final(self).wf(),
            final(self).font == old(self).font,
            final(self).pal_16@ == old(self).pal_16@,
            final(self).pal_256@ == old(self).pal_256@,
            final(self).screen_width == old(self).screen_width,
            final(self).screen_height == old(self).screen_height,
            final(self).screen_lower@.len() == old(self).screen_lower@.len(),
            final(self).screen_upper@.len() == old(self).screen_upper@.len(),
            final(self).screen_bg@.len() == old(self).screen_bg@.len(),
            forall|i: int|
                0 <= i < final(self).screen_lower@.len() ==> final(self).screen_lower@[i] == old(
                    self,
                ).fill_lower(),
            forall|i: int|
                0 <= i < final(self).screen_upper@.len() ==> final(self).screen_upper@[i] == old(
                    self,
                ).fill_upper(),
            forall|i: int|
                0 <= i < final(self).screen_bg@.len() ==> final(self).screen_bg@[i] == old(
                    self,
                ).fill_bg(),
    {
        let (fill_lower, fill_upper) = self.get_space();
        let fill_bg = self.pal_16[0];
        let n = self.screen_lower.len();
        let lower = scroll_vec(&self.screen_lower, n, fill_lower);
        self.screen_lower = lower;
        let upper = scroll_vec(&self.screen_upper, n, fill_upper);
        self.screen_upper = upper;
        let bg = scroll_vec(&self.screen_bg, n, fill_bg);
        self.screen_bg = bg;
    }
}

/// Resizing a grid to the size it already has leaves every cell unchanged,
/// so repeating a resize with the same arguments is idempotent.
pub proof fn lemma_resize_same_size<T>(cells: Seq<T>, w: int, h: int, fill: T)
    requires
        cells.len() == w * h,
        0 <= w,
        0 <= h,
    ensures
        resize_grid_spec(cells, w, h, w, h, fill) == cells,
{
    let r = resize_grid_spec(cells, w, h, w, h, fill);
    assert forall|i: int| 0 <= i < cells.len() implies r[i] == cells[i] by {
        assert(w >= 1) by (nonlinear_arith)
            requires
                0 <= i < w * h,
                0 <= w,
        ;
        lemma_fundamental_div_mod(i, w);
        assert(0 <= i / w && 0 <= i % w < w) by (nonlinear_arith)
            requires
                i == w * (i / w) + i % w,
                0 <= i % w < w,
                0 <= i,
                1 <= w,
        ;
        assert(i / w < h) by (nonlinear_arith)
            requires
                i == w * (i / w) + i % w,
                0 <= i % w < w,
                i < w * h,
                1 <= w,
                0 <= i / w,
        ;
        assert((i / w) * w + i % w == i) by (nonlinear_arith)
            requires
                i == w * (i / w) + i % w,
        ;
    }
    assert(r =~= cells);
}

/// Changing only the height preserves every cell the old and new grids
/// share and fills the rows a taller grid gains; a shorter grid simply
/// truncates, with no reflow.
pub proof fn lemma_resize_height_only<T>(cells: Seq<T>, w: int, h1: int, h2: int, fill: T)
    requires
        cells.len() == w * h1,
        0 <= w,
        0 <= h1,
        0 <= h2,
    ensures
        forall|i: int|
            0 <= i < w * h1 && i < w * h2 ==> resize_grid_spec(cells, w, h1, w, h2, fill)[i]
                == cells[i],
        forall|i: int|
            w * h1 <= i < w * h2 ==> resize_grid_spec(cells, w, h1, w, h2, fill)[i] == fill,
{
    let r = resize_grid_spec(cells, w, h1, w, h2, fill);
    assert forall|i: int| 0 <= i < w * h1 && i < w * h2 implies r[i] == cells[i] by {
        assert(w >= 1) by (nonlinear_arith)
            requires
                0 <= i < w * h1,
                0 <= w,
        ;
        lemma_fundamental_div_mod(i, w);
        assert(0 <= i / w && 0 <= i % w < w && i / w < h1 && (i / w) * w + i % w == i)
            by (nonlinear_arith)
            requires
                i == w * (i / w) + i % w,
                0 <= i % w < w,
                0 <= i,
                i < w * h1,
                1 <= w,
        ;
    }
    assert forall|i: int| w * h1 <= i < w * h2 implies r[i] == fill by {
        assert(w >= 1) by (nonlinear_arith)
            requires
                0 <= w * h1 <= i < w * h2,
                0 <= w,
        ;
        lemma_fundamental_div_mod(i, w);
        assert(i / w >= h1) by (nonlinear_arith)
            requires
                i == w * (i / w) + i % w,
                0 <= i % w < w,
                w * h1 <= i,
                1 <= w,
        ;
    }
}

/// Scrolling by `a` rows of cells and then by `b` is one scroll by
/// `a + b`: repeated scrolls accumulate.
pub proof fn lemma_scroll_compose<T>(s: Seq<T>, a: int, b: int, fill: T)
    requires
        0 <= a,
        0 <= b,
        a + b <= s.len(),
    ensures
        scroll_spec(scroll_spec(s, a, fill), b, fill) == scroll_spec(s, a + b, fill),
{
    assert(scroll_spec(scroll_spec(s, a, fill), b, fill) =~= scroll_spec(s, a + b, fill));
}

/// Scrolling a buffer by its whole length leaves only fill cells: scrolls
/// that add up to the full height blank the screen.
pub proof fn lemma_scroll_blank<T>(s: Seq<T>, fill: T)
    ensures
        scroll_spec(s, s.len() as int, fill) == Seq::new(s.len(), |i: int| fill),
{
    assert(scroll_spec(s, s.len() as int, fill) =~= Seq::new(s.len(), |i: int| fill));
}

} // verus!
