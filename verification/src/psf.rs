//! Reading a parsed PSF2 font into the library's font model.
//!
//! The PSF2 decoder is an outside collaborator: it owns the file format and
//! hands out, per character, the packed glyph bitmap. The library models
//! the decoded font as an abstract map from characters to bitmaps plus the
//! shared glyph dimensions, and builds its own `BitmapFont` from the
//! characters a caller asks for, validating everything it will later rely
//! on.

use vstd::prelude::*;
use crate::font::{BitmapFont, FontError};

verus! {

#[verifier::external_type_specification]
#[verifier::external_body]
pub struct ExPsf2Font(psf2_font::Psf2Font);

/// What the decoded font maps: each character the font's unicode table
/// covers, to that character's packed glyph bitmap.
pub uninterp spec fn psf_glyph_map(font: &psf2_font::Psf2Font) -> Map<char, Seq<u8>>;

/// The decoded font's shared glyph width and height in pixels.
pub uninterp spec fn psf_dimensions(font: &psf2_font::Psf2Font) -> (u32, u32);

/// Relies on `Psf2Font::get_glyph`: the packed glyph bitmap the font's
/// unicode table maps `ch` to, or nothing for an unmapped character.
#[verifier::external_body]
fn psf_get_glyph(font: &psf2_font::Psf2Font, ch: char) -> (r: Option<Vec<u8>>)
    ensures
        match r {
            Some(v) => psf_glyph_map(font).dom().contains(ch) && v@ == psf_glyph_map(font)[ch],
            None => !psf_glyph_map(font).dom().contains(ch),
        },
{
    match font.get_glyph(ch) {
        Some(g) => Some(g.to_vec()),
        None => None,
    }
}

/// Relies on `Psf2Font::dimensions`: the glyph width and height shared by
/// every glyph of the font.
#[verifier::external_body]
fn psf_dims(font: &psf2_font::Psf2Font) -> (r: (u32, u32))
    ensures
        r == psf_dimensions(font),
{
    font.dimensions()
}

/// The characters of `candidates`, in order, that the decoded font maps;
/// only the first `k` candidates considered.
pub open spec fn selected_upto(candidates: Seq<char>, m: Map<char, Seq<u8>>, k: int) -> Seq<char>
    decreases k,
{
    if k <= 0 {
        Seq::empty()
    } else {
        let prev = selected_upto(candidates, m, k - 1);
        if m.dom().contains(candidates[k - 1]) {
            prev.push(candidates[k - 1])
        } else {
            prev
        }
    }
}

/// The characters of `candidates`, in order, that the decoded font maps.
pub open spec fn selected_chars(candidates: Seq<char>, m: Map<char, Seq<u8>>) -> Seq<char> {
    selected_upto(candidates, m, candidates.len() as int)
}

/// Builds the library's font model from a decoded PSF2 font. The model
/// takes, in order, each character of `candidates` the font maps, assigns
/// it the next glyph index, and stores its bitmap; the usual validation
/// then runs, so the result is well-formed or an exact error. `candidates`
/// must list every character the terminal will draw, space and the
/// question mark among them.
pub fn font_from_psf2(font: &psf2_font::Psf2Font, candidates: &Vec<char>) -> (r: Result<
    BitmapFont,
    FontError,
>)
    ensures
        ({
            let sel = selected_chars(candidates@, psf_glyph_map(font));
            let m = psf_glyph_map(font);
            let w = psf_dimensions(font).0 as int;
            let h = psf_dimensions(font).1 as int;
            match r {
                Ok(bf) => {
                    &&& bf.wf()
                    &&& bf.glyph_w == w
                    &&& bf.glyph_h == h
                    &&& bf.glyphs@.len() == sel.len()
                    &&& forall|i: int|
                        0 <= i < sel.len() ==> (#[trigger] bf.glyphs@[i])@ == m[sel[i]]
                    &&& bf.chars@.len() == sel.len()
                    &&& forall|i: int|
                        0 <= i < sel.len() ==> (#[trigger] bf.chars@[i]) == (
                            sel[i],
                            i as usize,
                        )
                },
                Err(FontError::BadDimensions) => !(1 <= w <= 8 && 1 <= h <= 1024),
                Err(FontError::TooManyGlyphs) => {
                    &&& 1 <= w <= 8 && 1 <= h <= 1024
                    &&& sel.len() > 0x10000
                },
                Err(FontError::GlyphOutOfBounds) => {
                    &&& 1 <= w <= 8 && 1 <= h <= 1024
                    &&& exists|i: int| 0 <= i < sel.len() && (#[trigger] m[sel[i]]).len() != h
                },
                Err(FontError::MissingSpaceGlyph) => {
                    &&& 1 <= w <= 8 && 1 <= h <= 1024
                    &&& !sel.contains(' ')
                },
                Err(FontError::MissingFallbackGlyph) => {
                    &&& 1 <= w <= 8 && 1 <= h <= 1024
                    &&& !sel.contains('?')
                },
            }
        }),
{
    let (w32, h32) = psf_dims(font);
    if !(1 <= w32 && w32 <= 8 && 1 <= h32 && h32 <= 1024) {
        return Err(FontError::BadDimensions);
    }
    let glyph_w = w32 as usize;
    let glyph_h = h32 as usize;
    let ghost m = psf_glyph_map(font);
    let mut glyphs: Vec<Vec<u8>> = Vec::new();
    let mut chars: Vec<(char, usize)> = Vec::new();
    let mut k: usize = 0;
    while k < candidates.len()
        invariant
            k <= candidates@.len(),
            m == psf_glyph_map(font),
            glyphs@.len() == selected_upto(candidates@, m, k as int).len(),
            chars@.len() == glyphs@.len(),
            forall|i: int|
                0 <= i < glyphs@.len() ==> (#[trigger] glyphs@[i])@ == m[selected_upto(
                    candidates@,
                    m,
                    k as int,
                )[i]],
            forall|i: int|
                0 <= i < chars@.len() ==> (#[trigger] chars@[i]) == (
                    selected_upto(candidates@, m, k as int)[i],
                    i as usize,
                ),
        decreases candidates@.len() - k,
    {
        let c = candidates[k];
        let ghost prev_sel = selected_upto(candidates@, m, k as int);
        match psf_get_glyph(font, c) {
            Some(bitmap) => {
                proof {
                    assert(selected_upto(candidates@, m, k as int + 1) == prev_sel.push(c));
                }
                chars.push((c, glyphs.len()));
                glyphs.push(bitmap);
            },
            None => {
                proof {
                    assert(selected_upto(candidates@, m, k as int + 1) == prev_sel);
                }
            },
        }
        k = k + 1;
    }
    let ghost sel = selected_chars(candidates@, m);
    let r = BitmapFont::new(glyph_w, glyph_h, glyphs, chars);
    proof {
        if r is Err {
            let e = r->Err_0;
            if e == FontError::GlyphOutOfBounds {
                // Our own character table maps entry i to index i, so only
                // a bitmap of the wrong length can be at fault.
                assert(exists|i: int| 0 <= i < sel.len() && (#[trigger] m[sel[i]]).len() != h32);
            }
            if e == FontError::MissingSpaceGlyph {
                if sel.contains(' ') {
                    let i = choose|i: int| 0 <= i < sel.len() && sel[i] == ' ';
                    assert(chars@[i].0 == ' ');
                    crate::font::lemma_lookup_finds(chars@, ' ', i);
                    assert(false);
                }
            }
            if e == FontError::MissingFallbackGlyph {
                if sel.contains('?') {
                    let i = choose|i: int| 0 <= i < sel.len() && sel[i] == '?';
                    assert(chars@[i].0 == '?');
                    crate::font::lemma_lookup_finds(chars@, '?', i);
                    assert(false);
                }
            }
        }
    }
    r
}

} // verus!
