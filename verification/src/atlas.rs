//! Building the glyph atlases of a font.
//!
//! Each atlas holds up to 256 glyphs in a 16-by-16 grid of fixed-size
//! blocks; its dimensions are the glyph dimensions times sixteen, rounded up
//! to powers of two. Glyph `g` lives in atlas `g / 256` at slot `g % 256`.

use vstd::prelude::*;
use crate::font::BitmapFont;
use crate::rasterizer::{in_slot_block, pixel_byte, rasterize_char, slot_pixel};

verus! {

use vstd::arithmetic::div_mod::lemma_fundamental_div_mod;

/// Whether `n` is a power of two.
pub open spec fn is_pow2(n: int) -> bool
    decreases n,
{
    if n <= 0 {
        false
    } else if n == 1 {
        true
    } else {
        n % 2 == 0 && is_pow2(n / 2)
    }
}

/// The smallest power of two at or above `x`, and 1 for 0.
pub fn next_power_of_two(x: usize) -> (r: usize)
    requires
        x <= 0x10000,
    ensures
        is_pow2(r as int),
        r >= x,
        x >= 1 ==> r < 2 * x,
        x == 0 ==> r == 1,
{
    let mut r: usize = 1;
    while r < x
        invariant
            x <= 0x10000,
            1 <= r,
            is_pow2(r as int),
            r == 1 || r < 2 * x,
        decreases 2 * x - r,
    {
        r = r * 2;
    }
    r
}

/// The byte at flat index `i` of atlas `a` for `font`, over atlas rows of
/// `stride` bytes: the decoded pixel of the glyph whose slot block covers
/// that position, or zero where no glyph of the font does.
pub open spec fn atlas_byte(font: BitmapFont, a: int, i: int, stride: int) -> u8 {
    atlas_byte_upto(font, a, 256, i, stride)
}

/// As `atlas_byte`, but only the first `k` slots of the atlas are filled;
/// later slots still read zero.
pub open spec fn atlas_byte_upto(font: BitmapFont, a: int, k: int, i: int, stride: int) -> u8 {
    let y = i / stride;
    let x = i % stride;
    let sr = y / (font.glyph_h as int);
    let sc = x / (font.glyph_w as int);
    let slot = sr * 16 + sc;
    if 0 <= sr < 16 && 0 <= sc < 16 && slot < k && a * 256 + slot < font.glyphs@.len() {
        pixel_byte(
            font.glyphs@[a * 256 + slot]@[y % (font.glyph_h as int)],
            x % (font.glyph_w as int),
        )
    } else {
        0
    }
}

/// All glyphs of a font rasterized into pixel atlases, with the atlas
/// dimensions their consumer needs for sampling.
pub struct RasterizedFont {
    /// One pixel buffer per atlas of 256 glyphs (the last may be partial),
    /// each of `texture_width * texture_height` luminance bytes.
    pub textures: Vec<Vec<u8>>,
    /// Atlas width: the glyph width times sixteen, rounded up to a power of
    /// two.
    pub texture_width: usize,
    /// Atlas height: the glyph height times sixteen, rounded up to a power
    /// of two.
    pub texture_height: usize,
    /// The glyph width the atlases were built for.
    pub glyph_w: usize,
    /// The glyph height the atlases were built for.
    pub glyph_h: usize,
}

/// Rasterizes every glyph of `font` into its slot of its atlas. A font of
/// `n` glyphs fills `(n + 255) / 256` atlases; all bytes outside glyph
/// blocks are zero.
pub fn rasterize_font(font: &BitmapFont) -> (r: RasterizedFont)
    requires
        font.dims_wf(),
    ensures
        r.glyph_w == font.glyph_w,
        r.glyph_h == font.glyph_h,
        is_pow2(r.texture_width as int),
        16 * font.glyph_w <= r.texture_width < 32 * font.glyph_w,
        is_pow2(r.texture_height as int),
        16 * font.glyph_h <= r.texture_height < 32 * font.glyph_h,
        r.textures@.len() == (font.glyphs@.len() + 255) / 256,
        forall|a: int|
            0 <= a < r.textures@.len() ==> (#[trigger] r.textures@[a])@.len() == r.texture_width
                * r.texture_height,
        forall|a: int, i: int|
            0 <= a < r.textures@.len() && 0 <= i < r.texture_width * r.texture_height
                ==> (#[trigger] r.textures@[a]@[i]) == atlas_byte(
                *font,
                a,
                i,
                r.texture_width as int,
            ),
{
    let glyph_w = font.glyph_w;
    let glyph_h = font.glyph_h;
    let texture_width = next_power_of_two(16 * glyph_w);
    let texture_height = next_power_of_two(16 * glyph_h);
    let ghost tw = texture_width as int;
    let ghost th = texture_height as int;
    let ghost h = glyph_h as int;
    let ghost w = glyph_w as int;
    let ghost count = font.glyphs@.len() as int;
    let charcount = font.glyphs.len();
    let n_atlases = (charcount + 255) / 256;
    proof {
        assert(16 * h * tw <= tw * th && tw * th <= 0x800000) by (nonlinear_arith)
            requires
                16 * h <= th < 32 * h,
                16 * w <= tw < 32 * w,
                1 <= h <= 1024,
                1 <= w <= 8,
        ;
    }
    let mut textures: Vec<Vec<u8>> = Vec::new();
    let mut a: usize = 0;
    while a < n_atlases
        invariant
            a <= n_atlases,
            n_atlases == (count + 255) / 256,
            count == font.glyphs@.len(),
            charcount == count,
            font.dims_wf(),
            w == font.glyph_w as int,
            h == font.glyph_h as int,
            glyph_w == font.glyph_w,
            glyph_h == font.glyph_h,
            tw == texture_width as int,
            th == texture_height as int,
            16 * w <= tw < 32 * w,
            16 * h <= th < 32 * h,
            16 * h * tw <= tw * th <= 0x800000,
            textures@.len() == a,
            forall|a2: int|
                0 <= a2 < a ==> (#[trigger] textures@[a2])@.len() == tw * th,
            forall|a2: int, i: int|
                0 <= a2 < a && 0 <= i < tw * th ==> (#[trigger] textures@[a2]@[i]) == atlas_byte(
                    *font,
                    a2,
                    i,
                    tw,
                ),
        decreases n_atlases - a,
    {
        proof {
            lemma_block_bounds(count, a as int);
        }
        let remaining = charcount - a * 256;
        let block = if remaining < 256 {
            remaining
        } else {
            256
        };
        let mut tex: Vec<u8> = zero_vec(texture_width * texture_height);
        proof {
            assert forall|i: int| 0 <= i < tw * th implies tex@[i] == atlas_byte_upto(
                *font,
                a as int,
                0,
                i,
                tw,
            ) by {}
        }
        let mut chr: usize = 0;
        while chr < block
            invariant
                chr <= block,
                block == if count - a as int * 256 < 256 { count - a as int * 256 } else { 256 },
                0 <= a as int * 256,
                a as int * 256 + block <= count,
                count == font.glyphs@.len(),
                font.dims_wf(),
                w == font.glyph_w as int,
                h == font.glyph_h as int,
                glyph_w == font.glyph_w,
                glyph_h == font.glyph_h,
                tw == texture_width as int,
                th == texture_height as int,
                16 * w <= tw,
                16 * h * tw <= tw * th,
                tex@.len() == tw * th,
                forall|i: int|
                    0 <= i < tw * th ==> tex@[i] == atlas_byte_upto(*font, a as int, chr as int, i, tw),
            decreases block - chr,
        {
            let glyph_index = a * 256 + chr;
            let ghost prev = tex@;
            rasterize_char(&mut tex, texture_width, chr, font.glyphs[glyph_index].as_slice(), glyph_w);
            proof {
                let ghost g = glyph_index as int;
                let ghost data = font.glyphs@[g]@;
                assert(data.len() == h);
                assert forall|i: int| 0 <= i < tw * th implies tex@[i] == atlas_byte_upto(
                    *font,
                    a as int,
                    chr as int + 1,
                    i,
                    tw,
                ) by {
                    lemma_slot_step(*font, a as int, chr as int, i, tw, prev, tex@);
                }
            }
            chr = chr + 1;
        }
        proof {
            assert forall|i: int| 0 <= i < tw * th implies tex@[i] == atlas_byte(
                *font,
                a as int,
                i,
                tw,
            ) by {
                lemma_upto_saturates(*font, a as int, block as int, i, tw);
            }
        }
        textures.push(tex);
        a = a + 1;
    }
    RasterizedFont { textures, texture_width, texture_height, glyph_w, glyph_h }
}

/// Fills a fresh buffer of `n` zero bytes.
fn zero_vec(n: usize) -> (r: Vec<u8>)
    ensures
        r@.len() == n,
        forall|i: int| 0 <= i < n ==> r@[i] == 0u8,
{
    let mut r: Vec<u8> = Vec::new();
    let mut i: usize = 0;
    while i < n
        invariant
            i <= n,
            r@.len() == i,
            forall|j: int| 0 <= j < i ==> r@[j] == 0u8,
        decreases n - i,
    {
        r.push(0u8);
        i = i + 1;
    }
    r
}

/// The block of each atlas holds at least one and at most 256 glyphs, and
/// its glyph indices stay below the glyph count.
proof fn lemma_block_bounds(count: int, a: int)
    requires
        0 <= a,
        a < (count + 255) / 256,
        0 <= count,
    ensures
        0 < count - a * 256,
        a * 256 + (if count - a * 256 < 256 { count - a * 256 } else { 256 }) <= count,
{
    lemma_fundamental_div_mod(count + 255, 256);
}

/// One rasterized slot advances the partially-filled-atlas picture by one:
/// bytes inside slot `k`'s block take the glyph's pixels, all others keep
/// their `atlas_byte_upto` value.
proof fn lemma_slot_step(
    font: BitmapFont,
    a: int,
    k: int,
    i: int,
    stride: int,
    prev: Seq<u8>,
    cur: Seq<u8>,
)
    requires
        font.dims_wf(),
        0 <= k < 256,
        0 <= a,
        a * 256 + k < font.glyphs@.len(),
        16 * font.glyph_w <= stride,
        0 <= i < prev.len(),
        prev.len() == cur.len(),
        prev[i] == atlas_byte_upto(font, a, k, i, stride),
        cur[i] == (if in_slot_block(i, k, stride, font.glyph_h as int, font.glyph_w as int) {
            slot_pixel(font.glyphs@[a * 256 + k]@, i, k, stride, font.glyph_w as int)
        } else {
            prev[i]
        }),
        font.glyphs@[a * 256 + k]@.len() == font.glyph_h,
    ensures
        cur[i] == atlas_byte_upto(font, a, k + 1, i, stride),
{
    let h = font.glyph_h as int;
    let w = font.glyph_w as int;
    let y = i / stride;
    let x = i % stride;
    let sr = y / h;
    let sc = x / w;
    lemma_fundamental_div_mod(i, stride);
    lemma_fundamental_div_mod(y, h);
    lemma_fundamental_div_mod(x, w);
    assert(0 <= y && 0 <= x < stride) by (nonlinear_arith)
        requires
            0 <= i,
            16 * w <= stride,
            1 <= w,
            i == stride * y + x,
            x == i % stride,
            y == i / stride,
    ;
    assert(0 <= sr && 0 <= sc && sr * h <= y < sr * h + h && sc * w <= x < sc * w + w)
        by (nonlinear_arith)
        requires
            0 <= y,
            0 <= x,
            1 <= h,
            1 <= w,
            y == h * sr + y % h,
            0 <= y % h < h,
            x == w * sc + x % w,
            0 <= x % w < w,
            sr == y / h,
            sc == x / w,
    ;
    if in_slot_block(i, k, stride, h, w) {
        // The covered position decomposes to exactly slot k.
        assert(sr == k / 16 && sc == k % 16) by (nonlinear_arith)
            requires
                (k / 16) * h <= y < (k / 16) * h + h,
                (k % 16) * w <= x < (k % 16) * w + w,
                sr * h <= y < sr * h + h,
                sc * w <= x < sc * w + w,
                1 <= h,
                1 <= w,
                0 <= sr,
                0 <= sc,
                0 <= k / 16,
                0 <= k % 16,
        ;
        lemma_fundamental_div_mod(k, 16);
        assert(sr * 16 + sc == k);
        assert(y % h == y - (k / 16) * h && x % w == x - (k % 16) * w) by (nonlinear_arith)
            requires
                y == h * (y / h) + y % h,
                x == w * (x / w) + x % w,
                sr == y / h,
                sc == x / w,
                sr == k / 16,
                sc == k % 16,
        ;
    } else {
        // The position lies outside slot k's block, so the slot its bands
        // decompose to is some other slot and its byte was settled before.
        if 0 <= sr < 16 && 0 <= sc < 16 && sr * 16 + sc == k {
            lemma_fundamental_div_mod(k, 16);
            assert(k / 16 == sr && k % 16 == sc);
            assert(in_slot_block(i, k, stride, h, w));
            assert(false);
        }
    }
}

/// Once every slot of an atlas's block is filled, the partial picture is
/// the finished one: slots past the block hold no glyph of the font.
proof fn lemma_upto_saturates(font: BitmapFont, a: int, block: int, i: int, stride: int)
    requires
        font.dims_wf(),
        0 <= a,
        block == if font.glyphs@.len() - a * 256 < 256 {
            font.glyphs@.len() - a * 256
        } else {
            256
        },
        0 < block,
    ensures
        atlas_byte_upto(font, a, block, i, stride) == atlas_byte_upto(font, a, 256, i, stride),
{
    if block < 256 {
        assert(font.glyphs@.len() == a * 256 + block);
    }
}

} // verus!
