//! The cell compositor: turning a terminal snapshot into GPU-facing
//! buffers.
//!
//! One encode pass walks the grid in row-major order and produces, inside
//! one flat buffer: the per-cell background colors, then the per-cell
//! foreground colors grouped by the atlas texture each cell's glyph lives
//! in, then the per-cell tile-info words grouped the same way. Per atlas
//! texture the encoder reports how many cells landed in its group, so the
//! rendering backend can issue one instanced draw per texture.

use vstd::prelude::*;
use crate::font::{fallback_index_spec, BitmapFont};

verus! {

/// The resolved color a cell's foreground takes when the snapshot gives no
/// explicit color.
pub const DEFAULT_FG_COLOR: u32 = 0xFFFFFFFF;

/// The resolved color a cell's background takes when the snapshot gives no
/// explicit color.
pub const DEFAULT_BG_COLOR: u32 = 0xFF000000;

/// A color as the terminal state machine reports it: the terminal default,
/// a palette index, or a direct red-green-blue triple.
#[derive(Clone, Copy, PartialEq, Eq, Structural, Debug)]
pub enum ColorSpec {
    Default,
    Idx(u8),
    Rgb(u8, u8, u8),
}

/// One cell of a terminal snapshot: its character, colors, and style.
#[derive(Clone, Copy, PartialEq, Eq, Structural, Debug)]
pub struct TermCell {
    pub ch: char,
    pub fg: ColorSpec,
    pub bg: ColorSpec,
    pub bold: bool,
    pub dim: bool,
    pub italic: bool,
    pub inverse: bool,
}

/// A full terminal grid at one coherent point in time, row-major.
pub struct TermSnapshot {
    pub rows: usize,
    pub cols: usize,
    pub cells: Vec<TermCell>,
}

/// The terminal was larger than the 256-by-256 ceiling that a tile-info
/// word's one-byte row and column fields can address.
#[derive(Clone, Copy, PartialEq, Eq, Structural, Debug)]
pub struct OversizedTerminal;

impl TermSnapshot {
    /// Bounded dimensions and exactly one cell per grid position.
    pub open spec fn wf(&self) -> bool {
        &&& self.rows <= 256
        &&& self.cols <= 256
        &&& self.cells@.len() == self.rows * self.cols
    }

    /// Builds a snapshot, rejecting grids beyond 256 rows or columns or
    /// with the wrong cell count.
    pub fn new(rows: usize, cols: usize, cells: Vec<TermCell>) -> (r: Result<
        TermSnapshot,
        OversizedTerminal,
    >)
        ensures
            match r {
                Ok(s) => {
                    &&& s.wf()
                    &&& s.rows == rows
                    &&& s.cols == cols
                    &&& s.cells@ == cells@
                },
                Err(_) => rows > 256 || cols > 256 || cells@.len() != rows * cols,
            },
    {
        if rows > 256 || cols > 256 {
            return Err(OversizedTerminal);
        }
        proof {
            assert(rows * cols <= 256 * 256) by (nonlinear_arith)
                requires
                    0 <= rows <= 256,
                    0 <= cols <= 256,
            ;
        }
        let n = rows * cols;
        if cells.len() != n {
            return Err(OversizedTerminal);
        }
        Ok(TermSnapshot { rows, cols, cells })
    }
}

/// The color a `ColorSpec` resolves to against palette `p` with default
/// `d`: palette entries gain a full alpha byte, direct triples pack as
/// alpha-red-green-blue, and out-of-range palette indices fall back to the
/// default rather than faulting.
pub open spec fn map_color_spec(c: ColorSpec, p: Seq<u32>, d: u32) -> u32 {
    match c {
        ColorSpec::Default => d,
        ColorSpec::Idx(i) => if i < p.len() {
            p[i as int] | 0xFF000000
        } else {
            d
        },
        ColorSpec::Rgb(r, g, b) => (b as u32) | ((g as u32) << 8) | ((r as u32) << 16)
            | 0xFF000000,
    }
}

/// Resolves a snapshot color against a palette, as `map_color_spec` says.
pub fn map_color(c: ColorSpec, p: &Vec<u32>, d: u32) -> (r: u32)
    ensures
        r == map_color_spec(c, p@, d),
{
    match c {
        ColorSpec::Default => d,
        ColorSpec::Idx(i) => {
            if (i as usize) < p.len() {
                p[i as usize] | 0xFF000000
            } else {
                d
            }
        },
        ColorSpec::Rgb(r, g, b) => (b as u32) | ((g as u32) << 8) | ((r as u32) << 16)
            | 0xFF000000,
    }
}

/// The glyph index a cell's character resolves to.
pub open spec fn cell_glyph_index(font: BitmapFont, cell: TermCell) -> usize {
    fallback_index_spec(font.chars@, cell.ch)
}

/// The atlas texture a cell's glyph lives in.
pub open spec fn cell_tex(font: BitmapFont, cell: TermCell) -> int {
    cell_glyph_index(font, cell) as int / 256
}

/// A cell's style flags packed into the low bits: bold, dim, italic.
pub open spec fn style_bits_spec(cell: TermCell) -> u32 {
    (if cell.bold {
        1u32
    } else {
        0u32
    }) | (if cell.dim {
        2u32
    } else {
        0u32
    }) | (if cell.italic {
        4u32
    } else {
        0u32
    })
}

/// A cell's packed tile-info word: glyph low byte, then column, then row,
/// then style flags, one byte each.
pub open spec fn tile_info_spec(font: BitmapFont, cell: TermCell, row: int, col: int) -> u32 {
    ((cell_glyph_index(font, cell) as u32) & 0xFF) | ((col as u32) << 8) | ((row as u32) << 16) | (
    style_bits_spec(cell) << 24)
}

/// A cell's drawn foreground color: the resolved foreground, or the
/// resolved background under inverse video.
pub open spec fn cell_fg_spec(cell: TermCell, pal: Seq<u32>) -> u32 {
    if cell.inverse {
        map_color_spec(cell.bg, pal, DEFAULT_BG_COLOR)
    } else {
        map_color_spec(cell.fg, pal, DEFAULT_FG_COLOR)
    }
}

/// A cell's drawn background color: the resolved background, or the
/// resolved foreground under inverse video.
pub open spec fn cell_bg_spec(cell: TermCell, pal: Seq<u32>) -> u32 {
    if cell.inverse {
        map_color_spec(cell.fg, pal, DEFAULT_FG_COLOR)
    } else {
        map_color_spec(cell.bg, pal, DEFAULT_BG_COLOR)
    }
}

/// The tile-info words of atlas texture `t`'s group after the first `k`
/// cells of the grid, in row-major traversal order.
pub open spec fn bucket_infos_upto(font: BitmapFont, snap: TermSnapshot, t: int, k: int) -> Seq<
    u32,
>
    decreases k,
{
    if k <= 0 {
        Seq::empty()
    } else {
        let prev = bucket_infos_upto(font, snap, t, k - 1);
        let cell = snap.cells@[k - 1];
        if cell_tex(font, cell) == t {
            prev.push(
                tile_info_spec(
                    font,
                    cell,
                    (k - 1) / (snap.cols as int),
                    (k - 1) % (snap.cols as int),
                ),
            )
        } else {
            prev
        }
    }
}

/// The foreground colors of atlas texture `t`'s group after the first `k`
/// cells of the grid, in row-major traversal order.
pub open spec fn bucket_fgs_upto(
    font: BitmapFont,
    snap: TermSnapshot,
    pal: Seq<u32>,
    t: int,
    k: int,
) -> Seq<u32>
    decreases k,
{
    if k <= 0 {
        Seq::empty()
    } else {
        let prev = bucket_fgs_upto(font, snap, pal, t, k - 1);
        let cell = snap.cells@[k - 1];
        if cell_tex(font, cell) == t {
            prev.push(cell_fg_spec(cell, pal))
        } else {
            prev
        }
    }
}

/// How many of the first `k` cells fall in atlas texture `t`'s group.
pub open spec fn bucket_count_upto(font: BitmapFont, snap: TermSnapshot, t: int, k: int) -> int {
    bucket_infos_upto(font, snap, t, k).len() as int
}

/// How many cells of the whole grid fall in atlas texture `t`'s group: the
/// draw count the rendering backend issues for that texture.
pub open spec fn bucket_count(font: BitmapFont, snap: TermSnapshot, t: int) -> int {
    bucket_count_upto(font, snap, t, snap.cells@.len() as int)
}

/// The total size of the groups of atlas textures below `t` after the
/// first `k` cells: where texture `t`'s group starts inside a segment.
pub open spec fn bucket_offset_upto(font: BitmapFont, snap: TermSnapshot, t: int, k: int) -> int
    decreases t,
{
    if t <= 0 {
        0
    } else {
        bucket_offset_upto(font, snap, t - 1, k) + bucket_count_upto(font, snap, t - 1, k)
    }
}

/// Where atlas texture `t`'s group starts inside the foreground and
/// tile-info segments of a finished frame.
pub open spec fn bucket_offset(font: BitmapFont, snap: TermSnapshot, t: int) -> int {
    bucket_offset_upto(font, snap, t, snap.cells@.len() as int)
}


/// A texture's group never shrinks as more cells are visited.
proof fn lemma_bucket_len_mono(font: BitmapFont, snap: TermSnapshot, t: int, k1: int, k2: int)
    requires
        0 <= k1 <= k2,
    ensures
        bucket_count_upto(font, snap, t, k1) <= bucket_count_upto(font, snap, t, k2),
    decreases k2 - k1,
{
    if k1 < k2 {
        lemma_bucket_len_mono(font, snap, t, k1, k2 - 1);
    }
}

/// A group's foreground list and tile-info list grow in lockstep.
proof fn lemma_bucket_lens_eq(font: BitmapFont, snap: TermSnapshot, pal: Seq<u32>, t: int, k: int)
    ensures
        bucket_fgs_upto(font, snap, pal, t, k).len() == bucket_infos_upto(font, snap, t, k).len(),
    decreases k,
{
    if k > 0 {
        lemma_bucket_lens_eq(font, snap, pal, t, k - 1);
    }
}

/// Group offsets are sums of group sizes and never negative.
proof fn lemma_offset_nonneg(font: BitmapFont, snap: TermSnapshot, t: int, k: int)
    ensures
        bucket_offset_upto(font, snap, t, k) >= 0,
    decreases t,
{
    if t > 0 {
        lemma_offset_nonneg(font, snap, t - 1, k);
    }
}

/// Offsets grow with the texture index.
proof fn lemma_offset_mono_t(font: BitmapFont, snap: TermSnapshot, t1: int, t2: int, k: int)
    requires
        0 <= t1 <= t2,
    ensures
        bucket_offset_upto(font, snap, t1, k) <= bucket_offset_upto(font, snap, t2, k),
    decreases t2 - t1,
{
    if t1 < t2 {
        lemma_offset_mono_t(font, snap, t1, t2 - 1, k);
    }
}

/// Visiting one more cell grows the combined size of the groups under `t`
/// by one exactly when the new cell's texture lies under `t`.
proof fn lemma_offsets_step(font: BitmapFont, snap: TermSnapshot, t: int, k: int)
    requires
        1 <= k,
    ensures
        bucket_offset_upto(font, snap, t, k) == bucket_offset_upto(font, snap, t, k - 1) + (
        if 0 <= cell_tex(font, snap.cells@[k - 1]) < t {
            1int
        } else {
            0int
        }),
    decreases t,
{
    if t > 0 {
        lemma_offsets_step(font, snap, t - 1, k);
    }
}

/// When every visited cell's texture lies under `t`, the groups under `t`
/// together hold every visited cell.
proof fn lemma_offsets_total(font: BitmapFont, snap: TermSnapshot, t: int, k: int)
    requires
        0 <= k <= snap.cells@.len(),
        forall|j: int| 0 <= j < k ==> 0 <= cell_tex(font, #[trigger] snap.cells@[j]) < t,
    ensures
        bucket_offset_upto(font, snap, t, k) == k,
    decreases k,
{
    if k > 0 {
        lemma_offsets_total(font, snap, t, k - 1);
        assert(0 <= cell_tex(font, snap.cells@[k - 1]) < t);
        lemma_offsets_step(font, snap, t, k);
    } else {
        lemma_offsets_empty(font, snap, t);
    }
}

/// Before any cell is visited every group is empty, so all offsets are
/// zero.
proof fn lemma_offsets_empty(font: BitmapFont, snap: TermSnapshot, t: int)
    ensures
        bucket_offset_upto(font, snap, t, 0) == 0,
    decreases t,
{
    if t > 0 {
        lemma_offsets_empty(font, snap, t - 1);
    }
}

/// Against a well-formed font whose glyphs fit in `tcount` atlases, every
/// cell's texture index lies under `tcount`.
proof fn lemma_all_tex_in_range(font: BitmapFont, snap: TermSnapshot, tcount: int)
    requires
        font.wf(),
        font.glyphs@.len() <= 256 * tcount,
    ensures
        forall|j: int|
            0 <= j < snap.cells@.len() ==> 0 <= cell_tex(font, #[trigger] snap.cells@[j]) < tcount,
{
    assert forall|j: int| 0 <= j < snap.cells@.len() implies 0 <= cell_tex(
        font,
        #[trigger] snap.cells@[j],
    ) < tcount by {
        let cell = snap.cells@[j];
        crate::font::lemma_fallback_in_range(font, cell.ch);
        let idx = cell_glyph_index(font, cell) as int;
        vstd::arithmetic::div_mod::lemma_fundamental_div_mod(idx, 256);
        assert(0 <= idx / 256);
        assert(idx / 256 < tcount);
    }
}

/// The whole shape of a finished frame: the flat background segment, then
/// the per-texture foreground groups, then the per-texture tile-info
/// groups, with the reported per-texture counts.
pub open spec fn is_encoded_frame(
    font: BitmapFont,
    snap: TermSnapshot,
    pal: Seq<u32>,
    buf: Seq<u32>,
    counts: Seq<usize>,
) -> bool {
    let n = snap.cells@.len() as int;
    &&& buf.len() == 3 * n
    &&& forall|k: int| 0 <= k < n ==> buf[k] == cell_bg_spec(#[trigger] snap.cells@[k], pal)
    &&& forall|t: int|
        0 <= t < counts.len() ==> #[trigger] counts[t] == bucket_count(font, snap, t)
    &&& forall|t: int, j: int|
        0 <= t < counts.len() && 0 <= j < bucket_count(font, snap, t) ==> buf[n + bucket_offset(
            font,
            snap,
            t,
        ) + j] == #[trigger] bucket_fgs_upto(font, snap, pal, t, n)[j]
    &&& forall|t: int, j: int|
        0 <= t < counts.len() && 0 <= j < bucket_count(font, snap, t) ==> buf[2 * n
            + bucket_offset(font, snap, t) + j] == #[trigger] bucket_infos_upto(font, snap, t, n)[j]
}

/// The cell compositor's working state: the one flat output buffer and the
/// per-atlas-texture draw counts, recomputed from a fresh snapshot every
/// frame.
pub struct NeoCharRender {
    /// Backgrounds, then grouped foregrounds, then grouped tile-info
    /// words: `3 * rows * cols` words.
    pub big_buffer: Vec<u32>,
    /// How many cells of the last encoded frame each atlas texture draws.
    pub fg_texture_counts: Vec<usize>,
    /// Grid height in cells, at most 256.
    pub rows: usize,
    /// Grid width in cells, at most 256.
    pub cols: usize,
}

impl NeoCharRender {
    /// Bounded grid dimensions and a buffer of three words per cell.
    pub open spec fn wf(&self) -> bool {
        &&& self.rows <= 256
        &&& self.cols <= 256
        &&& self.big_buffer@.len() == 3 * (self.rows * self.cols)
    }

    /// Builds a compositor for a `rows`-by-`cols` grid drawn from
    /// `n_textures` atlas textures, rejecting grids beyond the 256-by-256
    /// ceiling.
    pub fn new_with(n_textures: usize, rows: usize, cols: usize) -> (r: Result<
        NeoCharRender,
        OversizedTerminal,
    >)
        ensures
            match r {
                Ok(nc) => {
                    &&& nc.wf()
                    &&& nc.rows == rows
                    &&& nc.cols == cols
                    &&& nc.fg_texture_counts@.len() == n_textures
                    &&& forall|t: int|
                        0 <= t < n_textures ==> #[trigger] nc.fg_texture_counts@[t] == 0
                },
                Err(_) => rows > 256 || cols > 256,
            },
    {
        if rows > 256 || cols > 256 {
            return Err(OversizedTerminal);
        }
        proof {
            assert(rows * cols <= 256 * 256) by (nonlinear_arith)
                requires
                    0 <= rows <= 256,
                    0 <= cols <= 256,
            ;
        }
        let n_tiles = rows * cols;
        let mut big_buffer: Vec<u32> = Vec::new();
        let mut i: usize = 0;
        let total = n_tiles * 3;
        while i < total
            invariant
                i <= total,
                big_buffer@.len() == i,
            decreases total - i,
        {
            big_buffer.push(0);
            i = i + 1;
        }
        let mut fg_texture_counts: Vec<usize> = Vec::new();
        let mut t: usize = 0;
        while t < n_textures
            invariant
                t <= n_textures,
                fg_texture_counts@.len() == t,
                forall|u: int| 0 <= u < t ==> #[trigger] fg_texture_counts@[u] == 0,
            decreases n_textures - t,
        {
            fg_texture_counts.push(0);
            t = t + 1;
        }
        Ok(NeoCharRender { big_buffer, fg_texture_counts, rows, cols })
    }

    /// Builds a compositor sized for a grid of `max_row + 1` rows and
    /// `max_col + 1` columns, with one draw-count slot per atlas of the
    /// font. One-byte maxima keep the grid under the 256-by-256 ceiling by
    /// construction.
    pub fn new(font: &BitmapFont, max_row: u8, max_col: u8) -> (r: NeoCharRender)
        requires
            font.dims_wf(),
        ensures
            r.wf(),
            r.rows == max_row as usize + 1,
            r.cols == max_col as usize + 1,
            r.fg_texture_counts@.len() == (font.glyphs@.len() + 255) / 256,
    {
        let n_textures = (font.glyph_count() + 255) / 256;
        match Self::new_with(n_textures, max_row as usize + 1, max_col as usize + 1) {
            Ok(nc) => nc,
            Err(_) => {
                proof {
                    assert(false);
                }
                NeoCharRender {
                    big_buffer: Vec::new(),
                    fg_texture_counts: Vec::new(),
                    rows: 0,
                    cols: 0,
                }
            },
        }
    }
}


impl NeoCharRender {
    /// One full encode pass: walks the snapshot in row-major order and
    /// rebuilds the flat buffer as backgrounds, then grouped foregrounds,
    /// then grouped tile-info words, and the per-texture draw counts.
    /// Unmapped characters fall back to the replacement character and then
    /// the question mark; out-of-range palette indices resolve to the
    /// defaults.
    pub fn put_parser_data_into_buffers(
        &mut self,
        font: &BitmapFont,
        pal: &Vec<u32>,
        snap: &TermSnapshot,
    )
        requires
            old(self).wf(),
            font.wf(),
            snap.wf(),
            pal@.len() == 256,
            snap.rows == old(self).rows,
            snap.cols == old(self).cols,
            font.glyphs@.len() <= 256 * old(self).fg_texture_counts@.len(),
        ensures
            final(self).wf(),
            final(self).rows == old(self).rows,
            final(self).cols == old(self).cols,
            final(self).fg_texture_counts@.len() == old(self).fg_texture_counts@.len(),
            is_encoded_frame(
                *font,
                *snap,
                pal@,
                final(self).big_buffer@,
                final(self).fg_texture_counts@,
            ),
            bucket_offset(*font, *snap, final(self).fg_texture_counts@.len() as int)
                == snap.cells@.len(),
    {
        proof {
            assert(snap.rows * snap.cols <= 256 * 256) by (nonlinear_arith)
                requires
                    0 <= snap.rows <= 256,
                    0 <= snap.cols <= 256,
            ;
        }
        let n_tiles = self.rows * self.cols;
        let ghost n = snap.cells@.len() as int;
        let n_tex = self.fg_texture_counts.len();
        proof {
            lemma_all_tex_in_range(*font, *snap, n_tex as int);
            lemma_offsets_total(*font, *snap, n_tex as int, n);
        }
        let mut k: usize = 0;
        while k < n_tiles
            invariant
                k <= n_tiles,
                n_tiles == snap.cells@.len(),
                n_tiles <= 0x10000,
                snap.wf(),
                pal@.len() == 256,
                self.big_buffer@.len() == 3 * n_tiles,
                self.rows == old(self).rows,
                self.cols == old(self).cols,
                self.fg_texture_counts@ == old(self).fg_texture_counts@,
                forall|j: int|
                    0 <= j < k ==> self.big_buffer@[j] == cell_bg_spec(
                        #[trigger] snap.cells@[j],
                        pal@,
                    ),
            decreases n_tiles - k,
        {
            let cell = snap.cells[k];
            let fgc = map_color(cell.fg, pal, DEFAULT_FG_COLOR);
            let bgc = map_color(cell.bg, pal, DEFAULT_BG_COLOR);
            let chosen = if cell.inverse {
                fgc
            } else {
                bgc
            };
            self.big_buffer.set(k, chosen);
            k = k + 1;
        }
        let mut cursor: usize = 0;
        let mut t: usize = 0;
        while t < n_tex
            invariant
                t <= n_tex,
                n_tex == self.fg_texture_counts@.len(),
                n_tiles == snap.cells@.len(),
                n_tiles <= 0x10000,
                n == snap.cells@.len() as int,
                snap.wf(),
                font.wf(),
                pal@.len() == 256,
                font.glyphs@.len() <= 256 * n_tex,
                self.big_buffer@.len() == 3 * n_tiles,
                self.rows == old(self).rows,
                self.cols == old(self).cols,
                self.rows <= 256,
                self.cols <= 256,
                snap.cols == self.cols,
                n_tiles == self.rows * self.cols,
                bucket_offset(*font, *snap, n_tex as int) == n,
                cursor == bucket_offset(*font, *snap, t as int),
                0 <= cursor <= n_tiles,
                forall|u: int|
                    0 <= u < t ==> #[trigger] self.fg_texture_counts@[u] == bucket_count(
                        *font,
                        *snap,
                        u,
                    ),
                forall|j: int|
                    0 <= j < n ==> self.big_buffer@[j] == cell_bg_spec(
                        #[trigger] snap.cells@[j],
                        pal@,
                    ),
                forall|u: int, j: int|
                    0 <= u < t && 0 <= j < bucket_count(*font, *snap, u) ==> self.big_buffer@[n
                        + bucket_offset(*font, *snap, u) + j] == #[trigger] bucket_fgs_upto(
                        *font,
                        *snap,
                        pal@,
                        u,
                        n,
                    )[j],
                forall|u: int, j: int|
                    0 <= u < t && 0 <= j < bucket_count(*font, *snap, u) ==> self.big_buffer@[2 * n
                        + bucket_offset(*font, *snap, u) + j] == #[trigger] bucket_infos_upto(
                        *font,
                        *snap,
                        u,
                        n,
                    )[j],
            decreases n_tex - t,
        {
            let ghost base = bucket_offset(*font, *snap, t as int);
            proof {
                lemma_offset_mono_t(*font, *snap, t as int + 1, n_tex as int, n);
                assert(bucket_offset_upto(*font, *snap, t as int + 1, n) == base + bucket_count(
                    *font,
                    *snap,
                    t as int,
                ));
            }
            let mut cnt: usize = 0;
            let mut k2: usize = 0;
            while k2 < n_tiles
                invariant
                    k2 <= n_tiles,
                    t < n_tex,
                    n_tex == self.fg_texture_counts@.len(),
                    n_tiles == snap.cells@.len(),
                    n_tiles <= 0x10000,
                    n == snap.cells@.len() as int,
                    snap.wf(),
                    font.wf(),
                    pal@.len() == 256,
                    font.glyphs@.len() <= 256 * n_tex,
                    self.big_buffer@.len() == 3 * n_tiles,
                    self.rows == old(self).rows,
                    self.cols == old(self).cols,
                    self.rows <= 256,
                    self.cols <= 256,
                    snap.cols == self.cols,
                    n_tiles == self.rows * self.cols,
                    bucket_offset(*font, *snap, n_tex as int) == n,
                    base == bucket_offset(*font, *snap, t as int),
                    0 <= base,
                    base + bucket_count(*font, *snap, t as int) <= n,
                    cnt == bucket_count_upto(*font, *snap, t as int, k2 as int),
                    cursor == base + cnt,
                    forall|u: int|
                        0 <= u < t ==> #[trigger] self.fg_texture_counts@[u] == bucket_count(
                            *font,
                            *snap,
                            u,
                        ),
                    forall|j: int|
                        0 <= j < n ==> self.big_buffer@[j] == cell_bg_spec(
                            #[trigger] snap.cells@[j],
                            pal@,
                        ),
                    forall|u: int, j: int|
                        0 <= u < t && 0 <= j < bucket_count(*font, *snap, u) ==> self.big_buffer@[n
                            + bucket_offset(*font, *snap, u) + j] == #[trigger] bucket_fgs_upto(
                            *font,
                            *snap,
                            pal@,
                            u,
                            n,
                        )[j],
                    forall|u: int, j: int|
                        0 <= u < t && 0 <= j < bucket_count(*font, *snap, u) ==> self.big_buffer@[2
                            * n + bucket_offset(*font, *snap, u) + j]
                            == #[trigger] bucket_infos_upto(*font, *snap, u, n)[j],
                    forall|j: int|
                        0 <= j < cnt ==> self.big_buffer@[n + base + j] == #[trigger] bucket_fgs_upto(
                            *font,
                            *snap,
                            pal@,
                            t as int,
                            k2 as int,
                        )[j],
                    forall|j: int|
                        0 <= j < cnt ==> self.big_buffer@[2 * n + base + j]
                            == #[trigger] bucket_infos_upto(*font, *snap, t as int, k2 as int)[j],
                decreases n_tiles - k2,
            {
                let cell = snap.cells[k2];
                let fgc = map_color(cell.fg, pal, DEFAULT_FG_COLOR);
                let bgc = map_color(cell.bg, pal, DEFAULT_BG_COLOR);
                let fg_color = if cell.inverse {
                    bgc
                } else {
                    fgc
                };
                let idx = font.fallback_index(cell.ch);
                let idx32: u32 = idx as u32;
                proof {
                    assert(idx32 >> 8u32 == idx32 / 256u32) by (bit_vector);
                    assert(cell_tex(*font, cell) == (idx32 >> 8u32) as int);
                }
                let texture_num = (idx32 >> 8) as usize;
                if texture_num == t {
                    proof {
                        lemma_bucket_len_mono(*font, *snap, t as int, k2 as int + 1, n);
                        lemma_bucket_lens_eq(*font, *snap, pal@, t as int, k2 as int);
                        assert(cell_tex(*font, cell) == t as int);
                        assert(cnt + 1 == bucket_count_upto(*font, *snap, t as int, k2 as int + 1));
                        assert(cnt + 1 <= bucket_count(*font, *snap, t as int));
                        assert(cursor < n);
                    }
                    proof {
                        assert(self.cols >= 1) by (nonlinear_arith)
                            requires
                                0 <= k2,
                                k2 < n_tiles,
                                n_tiles == self.rows * self.cols,
                                0 <= self.rows,
                                0 <= self.cols,
                        ;
                        assert(k2 / self.cols < self.rows) by (nonlinear_arith)
                            requires
                                0 <= k2 < self.rows * self.cols,
                                1 <= self.cols,
                        ;
                    }
                    let row = k2 / self.cols;
                    let col = k2 % self.cols;
                    let style: u32 = (if cell.bold {
                        1u32
                    } else {
                        0u32
                    }) | (if cell.dim {
                        2u32
                    } else {
                        0u32
                    }) | (if cell.italic {
                        4u32
                    } else {
                        0u32
                    });
                    let tile_info: u32 = (idx32 & 0xFF) | ((col as u32) << 8) | ((row as u32)
                        << 16) | (style << 24);
                    proof {
                        assert(tile_info == tile_info_spec(*font, cell, row as int, col as int));
                        assert(fg_color == cell_fg_spec(cell, pal@));
                    }
                    let ghost prev_buf = self.big_buffer@;
                    self.big_buffer.set(n_tiles + cursor, fg_color);
                    self.big_buffer.set(2 * n_tiles + cursor, tile_info);
                    proof {
                        assert(bucket_fgs_upto(*font, *snap, pal@, t as int, k2 as int + 1)
                            == bucket_fgs_upto(*font, *snap, pal@, t as int, k2 as int).push(
                            cell_fg_spec(cell, pal@),
                        ));
                        assert(bucket_infos_upto(*font, *snap, t as int, k2 as int + 1)
                            == bucket_infos_upto(*font, *snap, t as int, k2 as int).push(
                            tile_info_spec(*font, cell, row as int, col as int),
                        ));
                        assert forall|j: int| 0 <= j < cnt + 1 implies self.big_buffer@[n + base
                            + j] == #[trigger] bucket_fgs_upto(
                            *font,
                            *snap,
                            pal@,
                            t as int,
                            k2 as int + 1,
                        )[j] by {}
                        assert forall|j: int| 0 <= j < cnt + 1 implies self.big_buffer@[2 * n + base
                            + j] == #[trigger] bucket_infos_upto(
                            *font,
                            *snap,
                            t as int,
                            k2 as int + 1,
                        )[j] by {}
                        assert forall|u: int, j: int|
                            0 <= u < t && 0 <= j < bucket_count(*font, *snap, u) implies
                            self.big_buffer@[n + bucket_offset(*font, *snap, u) + j]
                                == #[trigger] bucket_fgs_upto(*font, *snap, pal@, u, n)[j] by {
                            lemma_offset_nonneg(*font, *snap, u, n);
                            lemma_offset_mono_t(*font, *snap, u + 1, t as int, n);
                            assert(bucket_offset_upto(*font, *snap, u + 1, n) == bucket_offset(
                                *font,
                                *snap,
                                u,
                            ) + bucket_count(*font, *snap, u));
                            let q1 = n + bucket_offset(*font, *snap, u) + j;
                            let q2 = 2 * n + bucket_offset(*font, *snap, u) + j;
                            assert(q1 < n + base);
                            assert(q2 < 2 * n + base);
                            assert(q1 != n_tiles + cursor && q1 != 2 * n_tiles + cursor);
                            assert(q2 != n_tiles + cursor && q2 != 2 * n_tiles + cursor);
                            assert(self.big_buffer@[q1] == prev_buf[q1]);
                            assert(self.big_buffer@[q2] == prev_buf[q2]);
                            assert(prev_buf[q1] == bucket_fgs_upto(*font, *snap, pal@, u, n)[j]);
                            assert(prev_buf[q2] == bucket_infos_upto(*font, *snap, u, n)[j]);
                        }
                        assert forall|u: int, j: int|
                            0 <= u < t && 0 <= j < bucket_count(*font, *snap, u) implies
                            self.big_buffer@[2 * n + bucket_offset(*font, *snap, u) + j]
                                == #[trigger] bucket_infos_upto(*font, *snap, u, n)[j] by {
                            lemma_offset_nonneg(*font, *snap, u, n);
                            lemma_offset_mono_t(*font, *snap, u + 1, t as int, n);
                            assert(bucket_offset_upto(*font, *snap, u + 1, n) == bucket_offset(
                                *font,
                                *snap,
                                u,
                            ) + bucket_count(*font, *snap, u));
                            let q2 = 2 * n + bucket_offset(*font, *snap, u) + j;
                            assert(q2 < 2 * n + base);
                            assert(q2 != n_tiles + cursor && q2 != 2 * n_tiles + cursor);
                            assert(self.big_buffer@[q2] == prev_buf[q2]);
                            assert(prev_buf[q2] == bucket_infos_upto(*font, *snap, u, n)[j]);
                        }
                    }
                    cnt = cnt + 1;
                    cursor = cursor + 1;
                } else {
                    proof {
                        assert(cell_tex(*font, cell) != t as int);
                        assert(bucket_fgs_upto(*font, *snap, pal@, t as int, k2 as int + 1)
                            == bucket_fgs_upto(*font, *snap, pal@, t as int, k2 as int));
                        assert(bucket_infos_upto(*font, *snap, t as int, k2 as int + 1)
                            == bucket_infos_upto(*font, *snap, t as int, k2 as int));
                    }
                }
                k2 = k2 + 1;
            }
            self.fg_texture_counts.set(t, cnt);
            proof {
                assert(bucket_offset_upto(*font, *snap, t as int + 1, n) == base + cnt);
                lemma_offset_mono_t(*font, *snap, t as int + 1, n_tex as int, n);
            }
            t = t + 1;
        }
    }
}


/// Every position inside the grouped segments belongs to exactly one
/// texture's group: the one whose offset range covers it.
proof fn lemma_offset_locate(font: BitmapFont, snap: TermSnapshot, tcount: int, q: int)
    requires
        0 <= tcount,
        0 <= q < bucket_offset_upto(font, snap, tcount, snap.cells@.len() as int),
    ensures
        exists|t: int|
            0 <= t < tcount && #[trigger] bucket_offset(font, snap, t) <= q < bucket_offset(
                font,
                snap,
                t,
            ) + bucket_count(font, snap, t),
    decreases tcount,
{
    let n = snap.cells@.len() as int;
    if tcount > 0 {
        let prev = bucket_offset(font, snap, tcount - 1);
        if q >= prev {
            assert(bucket_offset_upto(font, snap, tcount, n) == prev + bucket_count(
                font,
                snap,
                tcount - 1,
            ));
            assert(0 <= tcount - 1 < tcount && bucket_offset(font, snap, tcount - 1) <= q
                < bucket_offset(font, snap, tcount - 1) + bucket_count(font, snap, tcount - 1));
        } else {
            lemma_offset_locate(font, snap, tcount - 1, q);
        }
    }
}

/// Encoding is deterministic: two finished frames of the same snapshot,
/// font and palette agree word for word, in the buffer and in the draw
/// counts.
pub proof fn lemma_encode_deterministic(
    font: BitmapFont,
    snap: TermSnapshot,
    pal: Seq<u32>,
    b1: Seq<u32>,
    c1: Seq<usize>,
    b2: Seq<u32>,
    c2: Seq<usize>,
)
    requires
        font.wf(),
        font.glyphs@.len() <= 256 * c1.len(),
        c1.len() == c2.len(),
        is_encoded_frame(font, snap, pal, b1, c1),
        is_encoded_frame(font, snap, pal, b2, c2),
    ensures
        b1 == b2,
        c1 == c2,
{
    let n = snap.cells@.len() as int;
    let tcount = c1.len() as int;
    lemma_all_tex_in_range(font, snap, tcount);
    lemma_offsets_total(font, snap, tcount, n);
    assert forall|t: int| 0 <= t < tcount implies c1[t] == c2[t] by {
        assert(c1[t] == bucket_count(font, snap, t));
        assert(c2[t] == bucket_count(font, snap, t));
    }
    assert(c1 =~= c2);
    assert forall|p: int| 0 <= p < 3 * n implies b1[p] == b2[p] by {
        if p < n {
            assert(b1[p] == cell_bg_spec(snap.cells@[p], pal));
            assert(b2[p] == cell_bg_spec(snap.cells@[p], pal));
        } else if p < 2 * n {
            lemma_offset_locate(font, snap, tcount, p - n);
            let t = choose|t: int|
                0 <= t < tcount && #[trigger] bucket_offset(font, snap, t) <= p - n
                    < bucket_offset(font, snap, t) + bucket_count(font, snap, t);
            let j = p - n - bucket_offset(font, snap, t);
            assert(b1[n + bucket_offset(font, snap, t) + j] == bucket_fgs_upto(
                font,
                snap,
                pal,
                t,
                n,
            )[j]);
            assert(b2[n + bucket_offset(font, snap, t) + j] == bucket_fgs_upto(
                font,
                snap,
                pal,
                t,
                n,
            )[j]);
        } else {
            lemma_offset_locate(font, snap, tcount, p - 2 * n);
            let t = choose|t: int|
                0 <= t < tcount && #[trigger] bucket_offset(font, snap, t) <= p - 2 * n
                    < bucket_offset(font, snap, t) + bucket_count(font, snap, t);
            let j = p - 2 * n - bucket_offset(font, snap, t);
            assert(b1[2 * n + bucket_offset(font, snap, t) + j] == bucket_infos_upto(
                font,
                snap,
                t,
                n,
            )[j]);
            assert(b2[2 * n + bucket_offset(font, snap, t) + j] == bucket_infos_upto(
                font,
                snap,
                t,
                n,
            )[j]);
        }
    }
    assert(b1 =~= b2);
}

} // verus!
