//! Decoding of one glyph's packed-bit rows into an 8-bit-per-pixel block of
//! an atlas buffer.
//!
//! A glyph bitmap stores one row per byte, most-significant bit leftmost.
//! Each set bit becomes an `0xFF` byte, each clear bit a `0x00` byte, written
//! at the glyph's slot inside a 16-by-16 atlas grid.

use vstd::prelude::*;

verus! {

use vstd::arithmetic::div_mod::lemma_fundamental_div_mod;

/// The decoded luminance byte for pixel column `c` of the glyph row stored in
/// byte `row`: `0xFF` where the bit is set, `0x00` where it is clear.
/// Bits are taken most-significant first, so bit `7 - c` is column `c`.
pub open spec fn pixel_byte(row: u8, c: int) -> u8 {
    if (row >> ((7 - c) as u8)) & 1 == 1 {
        0xFF
    } else {
        0x00
    }
}

/// Whether flat atlas index `i` lies inside the pixel block of `slot` in a
/// 16-by-16 grid of `glyph_w`-by-`glyph_h` blocks over rows of `stride`
/// bytes: atlas pixel row `i / stride` falls in the slot's band of glyph
/// rows and atlas pixel column `i % stride` in its band of glyph columns.
pub open spec fn in_slot_block(
    i: int,
    slot: int,
    stride: int,
    glyph_h: int,
    glyph_w: int,
) -> bool {
    &&& (slot / 16) * glyph_h <= i / stride < (slot / 16) * glyph_h + glyph_h
    &&& (slot % 16) * glyph_w <= i % stride < (slot % 16) * glyph_w + glyph_w
}

/// The byte that a finished slot block holds at flat index `i`: the decoded
/// pixel of the glyph row and column that `i` falls on.
pub open spec fn slot_pixel(
    data: Seq<u8>,
    i: int,
    slot: int,
    stride: int,
    glyph_w: int,
) -> u8 {
    pixel_byte(
        data[i / stride - (slot / 16) * data.len()],
        i % stride - (slot % 16) * glyph_w,
    )
}

/// Writes the glyph described by `data` (one byte per pixel row, leftmost
/// pixel in the most significant bit) into `target_array` at slot
/// `target_uv` of a 16-by-16 glyph grid whose atlas rows are
/// `target_row_len` bytes apart. Every byte outside the glyph's block is
/// left unchanged.
pub fn rasterize_char(
    target_array: &mut Vec<u8>,
    target_row_len: usize,
    target_uv: usize,
    data: &[u8],
    char_width: usize,
)
    requires
        1 <= char_width <= 8,
        target_uv < 256,
        16 * char_width <= target_row_len,
        old(target_array).len() >= 16 * data@.len() * target_row_len,
    ensures
        final(target_array).len() == old(target_array).len(),
        forall|i: int|
            0 <= i < old(target_array).len() ==> final(target_array)@[i] == (
            if in_slot_block(i, target_uv as int, target_row_len as int, data@.len() as int,
                char_width as int) {
                slot_pixel(data@, i, target_uv as int, target_row_len as int, char_width as int)
            } else {
                old(target_array)@[i]
            }),
{
    let ghost stride = target_row_len as int;
    let ghost h = data@.len() as int;
    let ghost w = char_width as int;
    let ghost slot = target_uv as int;
    proof {
        assert((slot / 16) * h <= 15 * h && 15 * h <= 16 * h * stride && (slot % 16) * w <= 15 * w
            && (slot / 16) * h + h <= 16 * h && (slot % 16) * w + w <= 16 * w)
            by (nonlinear_arith)
            requires
                0 <= slot < 256,
                1 <= w,
                16 * w <= stride,
                0 <= h,
        ;
    }
    let base_row: usize = (target_uv / 16) * data.len();
    let base_col: usize = (target_uv % 16) * char_width;
    let mut r: usize = 0;
    while r < data.len()
        invariant
            r <= data@.len(),
            1 <= char_width <= 8,
            target_uv < 256,
            16 * char_width <= target_row_len,
            stride == target_row_len as int,
            h == data@.len() as int,
            w == char_width as int,
            slot == target_uv as int,
            base_row == (slot / 16) * h,
            base_col == (slot % 16) * w,
            base_row + h <= 16 * h,
            base_col + w <= 16 * w,
            target_array.len() == old(target_array).len(),
            old(target_array).len() >= 16 * h * stride,
            forall|i: int|
                0 <= i < old(target_array).len() && in_slot_block(i, slot, stride, h, w) && i
                    / stride < base_row + r ==> target_array@[i] == slot_pixel(
                    data@,
                    i,
                    slot,
                    stride,
                    w,
                ),
            forall|i: int|
                0 <= i < old(target_array).len() && !(in_slot_block(i, slot, stride, h, w) && i
                    / stride < base_row + r) ==> target_array@[i] == old(target_array)@[i],
        decreases data@.len() - r,
    {
        let datum = data[r];
        proof {
            lemma_row_fits(slot, stride, h, w, r as int);
            assert(base_row + r <= 16 * h && 16 * h <= 16 * h * stride) by (nonlinear_arith)
                requires
                    base_row == (slot / 16) * h,
                    0 <= slot < 256,
                    0 <= r < h,
                    16 <= stride,
        ;
        }
        let row_start: usize = (base_row + r) * target_row_len + base_col;
        let mut c: usize = 0;
        while c < char_width
            invariant
                c <= char_width,
                r < data@.len(),
                1 <= char_width <= 8,
                target_uv < 256,
                16 * char_width <= target_row_len,
                stride == target_row_len as int,
                h == data@.len() as int,
                w == char_width as int,
                slot == target_uv as int,
                base_row == (slot / 16) * h,
                base_col == (slot % 16) * w,
                base_col + w <= stride,
                datum == data@[r as int],
                row_start == (base_row + r) * stride + base_col,
                row_start + w <= old(target_array).len(),
                target_array.len() == old(target_array).len(),
                forall|i: int|
                    0 <= i < old(target_array).len() && in_slot_block(i, slot, stride, h, w) && (i
                        / stride < base_row + r || (i / stride == base_row + r && i % stride
                        < base_col + c)) ==> target_array@[i] == slot_pixel(
                        data@,
                        i,
                        slot,
                        stride,
                        w,
                    ),
                forall|i: int|
                    0 <= i < old(target_array).len() && !(in_slot_block(i, slot, stride, h, w) && (i
                        / stride < base_row + r || (i / stride == base_row + r && i % stride
                        < base_col + c))) ==> target_array@[i] == old(target_array)@[i],
            decreases char_width - c,
        {
            let shift: u8 = (7 - c) as u8;
            let the_byte: u8 = if (datum >> shift) & 1 == 1 {
                0xFF
            } else {
                0x00
            };
            let idx: usize = row_start + c;
            proof {
                lemma_idx_decompose(slot, stride, h, w, r as int, c as int, idx as int);
                assert(the_byte == pixel_byte(datum, c as int));
                assert(slot_pixel(data@, idx as int, slot, stride, w) == pixel_byte(
                    data@[r as int],
                    c as int,
                ));
            }
            target_array.set(idx, the_byte);
            proof {
                assert forall|i: int|
                    0 <= i < old(target_array).len() && in_slot_block(i, slot, stride, h, w) && (i
                        / stride < base_row + r || (i / stride == base_row + r && i % stride
                        < base_col + c + 1)) implies target_array@[i] == slot_pixel(
                    data@,
                    i,
                    slot,
                    stride,
                    w,
                ) by {
                    if i / stride == base_row + r && i % stride == base_col + c {
                        lemma_fundamental_div_mod(i, stride);
                        assert(i == stride * (base_row + r) + base_col + c);
                        assert(stride * (base_row + r) == (base_row + r) * stride)
                            by (nonlinear_arith);
                        assert(i == idx);
                    }
                }
            }
            c = c + 1;
        }
        r = r + 1;
    }
}

/// The atlas bytes written for glyph row `r` of a slot all lie inside a
/// buffer of `16 * h * stride` bytes.
proof fn lemma_row_fits(slot: int, stride: int, h: int, w: int, r: int)
    requires
        0 <= slot < 256,
        1 <= w,
        16 * w <= stride,
        0 <= r < h,
    ensures
        ((slot / 16) * h + r) * stride + (slot % 16) * w + w <= 16 * h * stride,
{
    assert(((slot / 16) * h + r) * stride + (slot % 16) * w + w <= 16 * h * stride)
        by (nonlinear_arith)
        requires
            0 <= slot < 256,
            1 <= w,
            16 * w <= stride,
            0 <= r < h,
            0 <= slot / 16 < 16,
            0 <= slot % 16 < 16,
    ;
}

/// The flat index written for pixel `(r, c)` of a slot's glyph decomposes to
/// atlas pixel row `(slot / 16) * h + r` and atlas pixel column
/// `(slot % 16) * w + c`, and so lies inside the slot's block.
proof fn lemma_idx_decompose(slot: int, stride: int, h: int, w: int, r: int, c: int, i: int)
    requires
        0 <= slot < 256,
        1 <= w,
        16 * w <= stride,
        0 <= r < h,
        0 <= c < w,
        i == ((slot / 16) * h + r) * stride + (slot % 16) * w + c,
    ensures
        i / stride == (slot / 16) * h + r,
        i % stride == (slot % 16) * w + c,
        in_slot_block(i, slot, stride, h, w),
{
    assert(i / stride == (slot / 16) * h + r && i % stride == (slot % 16) * w + c)
        by (nonlinear_arith)
        requires
            i == ((slot / 16) * h + r) * stride + (slot % 16) * w + c,
            0 <= slot % 16 < 16,
            0 <= slot / 16,
            1 <= w,
            16 * w <= stride,
            0 <= c < w,
            0 <= r,
    ;
}

} // verus!
