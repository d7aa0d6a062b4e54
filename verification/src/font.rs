//! The library's model of a fixed-size bitmap font.
//!
//! A `BitmapFont` holds, as plain values, everything the atlas builder and
//! the cell compositor read from a font: the shared glyph width and height,
//! one packed bitmap per glyph (one byte per pixel row, most significant bit
//! leftmost), and a character-to-glyph-index table. A usable terminal font
//! must map both the space character and the question mark; both are
//! demanded when the model is built, so later lookups never fail.

use vstd::prelude::*;

verus! {

/// Why a font could not be taken as a terminal font.
#[derive(Clone, Copy, PartialEq, Eq, Structural, Debug)]
pub enum FontError {
    /// The glyph width is zero or above eight pixels (one packed byte per
    /// row), or the glyph height is zero or above 1024 pixels.
    BadDimensions,
    /// More glyphs than a two-byte glyph reference can address.
    TooManyGlyphs,
    /// A glyph bitmap has the wrong byte count for the declared height, or a
    /// character maps to a glyph index the font cannot supply.
    GlyphOutOfBounds,
    /// The font does not map the space character.
    MissingSpaceGlyph,
    /// The font maps neither the replacement character nor the question
    /// mark, so unknown characters could not be drawn at all.
    MissingFallbackGlyph,
}

/// The first glyph index that `chars` maps `c` to, if any.
pub open spec fn lookup_spec(chars: Seq<(char, usize)>, c: char) -> Option<usize>
    decreases chars.len(),
{
    if chars.len() == 0 {
        None
    } else if chars[0].0 == c {
        Some(chars[0].1)
    } else {
        lookup_spec(chars.drop_first(), c)
    }
}

/// The glyph index drawn for character `c`: its own glyph where the font
/// maps it, else the replacement character's, else the question mark's.
pub open spec fn fallback_index_spec(chars: Seq<(char, usize)>, c: char) -> usize
    recommends
        lookup_spec(chars, '?') is Some,
{
    match lookup_spec(chars, c) {
        Some(i) => i,
        None => match lookup_spec(chars, '\u{FFFD}') {
            Some(i) => i,
            None => lookup_spec(chars, '?').unwrap(),
        },
    }
}

/// A fixed-size bitmap font held as plain values.
pub struct BitmapFont {
    /// Glyph width in pixels; each glyph row is packed into one byte, so at
    /// most eight.
    pub glyph_w: usize,
    /// Glyph height in pixels, which is also each bitmap's byte count.
    pub glyph_h: usize,
    /// One packed bitmap per glyph.
    pub glyphs: Vec<Vec<u8>>,
    /// Character-to-glyph-index table; the first match wins.
    pub chars: Vec<(char, usize)>,
}

impl BitmapFont {
    /// The dimensional part of well-formedness: bounded dimensions, every
    /// bitmap one byte per pixel row, and every glyph addressable by a
    /// two-byte reference.
    pub open spec fn dims_wf(&self) -> bool {
        &&& 1 <= self.glyph_w <= 8
        &&& 1 <= self.glyph_h <= 1024
        &&& self.glyphs@.len() <= 0x10000
        &&& forall|g: int|
            0 <= g < self.glyphs@.len() ==> (#[trigger] self.glyphs@[g])@.len() == self.glyph_h
    }

    /// The character table's part of well-formedness: every mapped index
    /// names a glyph the font holds, and space and question mark are mapped.
    pub open spec fn chars_wf(&self) -> bool {
        &&& forall|k: int|
            0 <= k < self.chars@.len() ==> (#[trigger] self.chars@[k]).1 < self.glyphs@.len()
        &&& lookup_spec(self.chars@, ' ') is Some
        &&& lookup_spec(self.chars@, '?') is Some
    }

    pub open spec fn wf(&self) -> bool {
        self.dims_wf() && self.chars_wf()
    }

    /// Builds and validates a font model. Checks run in the order of the
    /// error conditions below; the first failure is reported.
    pub fn new(glyph_w: usize, glyph_h: usize, glyphs: Vec<Vec<u8>>, chars: Vec<(char, usize)>)
        -> (r: Result<BitmapFont, FontError>)
        ensures
            match r {
                Ok(font) => {
                    &&& font.wf()
                    &&& font.glyph_w == glyph_w
                    &&& font.glyph_h == glyph_h
                    &&& font.glyphs@ == glyphs@
                    &&& font.chars@ == chars@
                },
                Err(FontError::BadDimensions) => !(1 <= glyph_w <= 8 && 1 <= glyph_h <= 1024),
                Err(FontError::TooManyGlyphs) => {
                    &&& 1 <= glyph_w <= 8 && 1 <= glyph_h <= 1024
                    &&& glyphs@.len() > 0x10000
                },
                Err(FontError::GlyphOutOfBounds) => {
                    &&& 1 <= glyph_w <= 8 && 1 <= glyph_h <= 1024
                    &&& glyphs@.len() <= 0x10000
                    &&& {
                        ||| exists|g: int|
                            0 <= g < glyphs@.len() && (#[trigger] glyphs@[g])@.len() != glyph_h
                        ||| exists|k: int|
                            0 <= k < chars@.len() && (#[trigger] chars@[k]).1 >= glyphs@.len()
                    }
                },
                Err(FontError::MissingSpaceGlyph) => {
                    &&& 1 <= glyph_w <= 8 && 1 <= glyph_h <= 1024
                    &&& glyphs@.len() <= 0x10000
                    &&& forall|g: int|
                        0 <= g < glyphs@.len() ==> (#[trigger] glyphs@[g])@.len() == glyph_h
                    &&& forall|k: int|
                        0 <= k < chars@.len() ==> (#[trigger] chars@[k]).1 < glyphs@.len()
                    &&& lookup_spec(chars@, ' ') is None
                },
                Err(FontError::MissingFallbackGlyph) => {
                    &&& 1 <= glyph_w <= 8 && 1 <= glyph_h <= 1024
                    &&& glyphs@.len() <= 0x10000
                    &&& forall|g: int|
                        0 <= g < glyphs@.len() ==> (#[trigger] glyphs@[g])@.len() == glyph_h
                    &&& forall|k: int|
                        0 <= k < chars@.len() ==> (#[trigger] chars@[k]).1 < glyphs@.len()
                    &&& lookup_spec(chars@, ' ') is Some
                    &&& lookup_spec(chars@, '?') is None
                },
            },
    {
        if !(1 <= glyph_w && glyph_w <= 8 && 1 <= glyph_h && glyph_h <= 1024) {
            return Err(FontError::BadDimensions);
        }
        if glyphs.len() > 0x10000 {
            return Err(FontError::TooManyGlyphs);
        }
        let mut g: usize = 0;
        while g < glyphs.len()
            invariant
                g <= glyphs@.len(),
                1 <= glyph_w <= 8,
                1 <= glyph_h <= 1024,
                glyphs@.len() <= 0x10000,
                forall|g2: int| 0 <= g2 < g ==> (#[trigger] glyphs@[g2])@.len() == glyph_h,
            decreases glyphs@.len() - g,
        {
            if glyphs[g].len() != glyph_h {
                return Err(FontError::GlyphOutOfBounds);
            }
            g = g + 1;
        }
        let mut k: usize = 0;
        while k < chars.len()
            invariant
                k <= chars@.len(),
                1 <= glyph_w <= 8,
                1 <= glyph_h <= 1024,
                glyphs@.len() <= 0x10000,
                forall|g2: int| 0 <= g2 < glyphs@.len() ==> (#[trigger] glyphs@[g2])@.len() == glyph_h,
                forall|k2: int| 0 <= k2 < k ==> (#[trigger] chars@[k2]).1 < glyphs@.len(),
            decreases chars@.len() - k,
        {
            if chars[k].1 >= glyphs.len() {
                return Err(FontError::GlyphOutOfBounds);
            }
            k = k + 1;
        }
        let font = BitmapFont { glyph_w, glyph_h, glyphs, chars };
        if font.get_glyph_index(' ').is_none() {
            return Err(FontError::MissingSpaceGlyph);
        }
        if font.get_glyph_index('?').is_none() {
            return Err(FontError::MissingFallbackGlyph);
        }
        Ok(font)
    }

    /// The glyph index the font maps `c` to, if any: the first matching
    /// entry of the character table.
    pub fn get_glyph_index(&self, c: char) -> (r: Option<usize>)
        ensures
            r == lookup_spec(self.chars@, c),
    {
        proof {
            assert(self.chars@.skip(0) =~= self.chars@);
        }
        let mut k: usize = 0;
        while k < self.chars.len()
            invariant
                k <= self.chars@.len(),
                lookup_spec(self.chars@, c) == lookup_spec(self.chars@.skip(k as int), c),
            decreases self.chars@.len() - k,
        {
            let (ch, i) = self.chars[k];
            if ch == c {
                assert(self.chars@.skip(k as int)[0] == self.chars@[k as int]);
                return Some(i);
            }
            proof {
                assert(self.chars@.skip(k as int).drop_first() =~= self.chars@.skip(k as int + 1));
            }
            k = k + 1;
        }
        None
    }

    /// The glyph index drawn for `c`, falling back to the replacement
    /// character and then to the question mark for unmapped characters.
    pub fn fallback_index(&self, c: char) -> (r: usize)
        requires
            self.wf(),
        ensures
            r == fallback_index_spec(self.chars@, c),
            r < self.glyphs@.len(),
    {
        proof {
            lemma_lookup_in_table(self.chars@, c);
            lemma_lookup_in_table(self.chars@, '\u{FFFD}');
            lemma_lookup_in_table(self.chars@, '?');
        }
        match self.get_glyph_index(c) {
            Some(i) => i,
            None => match self.get_glyph_index('\u{FFFD}') {
                Some(i) => i,
                None => match self.get_glyph_index('?') {
                    Some(i) => i,
                    None => {
                        proof {
                            assert(false);
                        }
                        0
                    },
                },
            },
        }
    }

    /// How many glyphs the font holds.
    pub fn glyph_count(&self) -> (r: usize)
        ensures
            r == self.glyphs@.len(),
    {
        self.glyphs.len()
    }
}

/// A successful lookup returns an index that stands in the table.
pub proof fn lemma_lookup_in_table(chars: Seq<(char, usize)>, c: char)
    ensures
        lookup_spec(chars, c) matches Some(i) ==> exists|k: int|
            0 <= k < chars.len() && #[trigger] chars[k] == (c, i),
    decreases chars.len(),
{
    if chars.len() > 0 && chars[0].0 != c {
        lemma_lookup_in_table(chars.drop_first(), c);
        if lookup_spec(chars, c) is Some {
            let i = lookup_spec(chars, c).unwrap();
            let k = choose|k: int|
                0 <= k < chars.drop_first().len() && #[trigger] chars.drop_first()[k] == (c, i);
            assert(chars[k + 1] == (c, i));
        }
    }
}


/// Under a well-formed font the fallback chain always lands on a glyph the
/// font holds.
pub proof fn lemma_fallback_in_range(font: BitmapFont, c: char)
    requires
        font.wf(),
    ensures
        fallback_index_spec(font.chars@, c) < font.glyphs@.len(),
{
    lemma_lookup_in_table(font.chars@, c);
    lemma_lookup_in_table(font.chars@, '\u{FFFD}');
    lemma_lookup_in_table(font.chars@, '?');
}


/// A character that stands anywhere in the table is found by lookup.
pub proof fn lemma_lookup_finds(chars: Seq<(char, usize)>, c: char, k: int)
    requires
        0 <= k < chars.len(),
        chars[k].0 == c,
    ensures
        lookup_spec(chars, c) is Some,
    decreases chars.len(),
{
    if chars[0].0 != c {
        lemma_lookup_finds(chars.drop_first(), c, k - 1);
    }
}

} // verus!
