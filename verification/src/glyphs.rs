//! Rasterised glyphs and the cache that keeps one raster per key.

use crate::store::{has_name, lemma_with_entry, lookup, names_distinct, place_of};
use crate::strings::str_eq;
use vstd::prelude::*;

verus! {

/// What identifies a glyph raster: the font's name, the character, and the
/// size in hundredths of a pixel.
#[derive(Clone, Debug, PartialEq, Eq, Hash)]
pub struct GlyphKey {
    pub font: String,
    pub c: char,
    pub size: u32,
}

impl View for GlyphKey {
    type V = (Seq<char>, char, u32);

    open spec fn view(&self) -> (Seq<char>, char, u32) {
        (self.font@, self.c, self.size)
    }
}

impl GlyphKey {
    /// Whether two keys identify the same raster.
    pub fn same(&self, other: &GlyphKey) -> (r: bool)
        ensures
            r == (self@ == other@),
    {
        self.c == other.c && self.size == other.size && str_eq(
            self.font.as_str(),
            other.font.as_str(),
        )
    }
}

/// Where a glyph's bitmap sits relative to the pen, in whole pixels.
#[derive(Clone, Copy, Debug, PartialEq, Eq, Structural)]
pub struct GlyphMetrics {
    /// Offset of the bitmap's left edge from the pen.
    pub xmin: i32,
    /// Offset of the bitmap's bottom edge from the baseline.
    pub ymin: i32,
    pub width: usize,
    pub height: usize,
}

/// A glyph's coverage: one byte of alpha per pixel. Colour comes at draw time.
#[derive(Clone, Debug)]
pub struct CachedGlyph {
    pub metrics: GlyphMetrics,
    pub bitmap: Vec<u8>,
}

impl CachedGlyph {
    /// A glyph without area is not drawn; it only moves the pen.
    pub open spec fn spec_is_drawable(&self) -> bool {
        self.metrics.width > 0 && self.metrics.height > 0
    }

    #[verifier::when_used_as_spec(spec_is_drawable)]
    pub fn is_drawable(&self) -> (r: bool)
        ensures
            r == self.spec_is_drawable(),
    {
        self.metrics.width > 0 && self.metrics.height > 0
    }

    /// The number of bytes that the glyph takes once tinted to RGBA8:
    /// four for each pixel of its bitmap. `None` where that exceeds `usize`.
    pub fn tinted_len(&self) -> (r: Option<usize>)
        ensures
            match r {
                Some(n) => n == 4 * self.metrics.width * self.metrics.height,
                None => 4 * self.metrics.width * self.metrics.height > usize::MAX,
            },
    {
        let w: usize = self.metrics.width;
        let h: usize = self.metrics.height;
        match w.checked_mul(4) {
            Some(row) => {
                assert(4 * w * h == row * h) by (nonlinear_arith)
                    requires
                        row == w * 4,
                ;
                row.checked_mul(h)
            },
            None => {
                if h == 0 {
                    assert(4 * w * h == 0) by (nonlinear_arith)
                        requires
                            h == 0,
                    ;
                    Some(0)
                } else {
                    assert(4 * w * h >= 4 * w) by (nonlinear_arith)
                        requires
                            h >= 1,
                            w >= 0,
                    ;
                    None
                }
            },
        }
    }
}

/// The value of a glyph key.
pub type KeyValue = (Seq<char>, char, u32);

/// Whether some entry of `s` has the key `key`.
pub open spec fn has_key(s: Seq<(KeyValue, CachedGlyph)>, key: KeyValue) -> bool {
    has_name(s, key)
}

/// The glyph cached under `key`, if any.
pub open spec fn cached(s: Seq<(KeyValue, CachedGlyph)>, key: KeyValue) -> Option<CachedGlyph> {
    lookup(s, key)
}

/// No two entries share a key.
pub open spec fn keys_distinct(s: Seq<(KeyValue, CachedGlyph)>) -> bool {
    names_distinct(s)
}

/// One raster per glyph key. The cache only grows: a key keeps the first
/// raster stored under it.
pub struct GlyphCache {
    entries: Vec<(GlyphKey, CachedGlyph)>,
}

impl GlyphCache {
    #[verifier::type_invariant]
    spec fn inv(self) -> bool {
        keys_distinct(self@)
    }

    /// The entries, oldest first.
    pub closed spec fn view(&self) -> Seq<((Seq<char>, char, u32), CachedGlyph)> {
        Seq::new(self.entries@.len(), |i: int| (self.entries@[i].0@, self.entries@[i].1))
    }

    /// An empty cache.
    pub fn new() -> (c: Self)
        ensures
            c@ == Seq::<((Seq<char>, char, u32), CachedGlyph)>::empty(),
    {
        let c = GlyphCache { entries: Vec::new() };
        assert(c@ =~= Seq::<((Seq<char>, char, u32), CachedGlyph)>::empty());
        c
    }

    fn find(&self, key: &GlyphKey) -> (r: Option<usize>)
        ensures
            keys_distinct(self@),
            r is Some <==> has_key(self@, key@),
            r matches Some(i) ==> i < self@.len() && i == place_of(self@, key@),
    {
        proof {
            use_type_invariant(self);
        }
        let mut i: usize = 0;
        while i < self.entries.len()
            invariant
                i <= self.entries.len(),
                keys_distinct(self@),
                forall|k: int| 0 <= k < i ==> (#[trigger] self@[k]).0 != key@,
            decreases self.entries.len() - i,
        {
            if self.entries[i].0.same(key) {
                assert(self@[i as int].0 == key@);
                assert(has_key(self@, key@));
                return Some(i);
            }
            i += 1;
        }
        None
    }

    /// The number of cached glyphs.
    pub fn len(&self) -> (n: usize)
        ensures
            n == self@.len(),
            keys_distinct(self@),
    {
        proof {
            use_type_invariant(self);
        }
        self.entries.len()
    }

    /// The glyph cached under `key`, if any.
    pub fn get(&self, key: &GlyphKey) -> (r: Option<&CachedGlyph>)
        ensures
            match r {
                Some(glyph) => cached(self@, key@) == Some(*glyph),
                None => cached(self@, key@) is None,
            },
    {
        match self.find(key) {
            Some(i) => Some(&self.entries[i].1),
            None => None,
        }
    }

    /// Caches `glyph` under `key` unless the key has a glyph already, and says
    /// whether it did. A key that is present keeps its glyph, so that asking
    /// twice never changes what the cache answers.
    pub fn insert(&mut self, key: GlyphKey, glyph: CachedGlyph) -> (added: bool)
        ensures
            added == !has_key(old(self)@, key@),
            added ==> final(self)@ == old(self)@.push((key@, glyph)),
            !added ==> final(self)@ == old(self)@,
            cached(final(self)@, key@) == if added {
                Some(glyph)
            } else {
                cached(old(self)@, key@)
            },
    {
        let found = self.find(&key);
        let ghost before = self@;
        match found {
            Some(_) => false,
            None => {
                proof {
                    lemma_with_entry(before, key@, glyph, key@);
                }
                let mut entries: Vec<(GlyphKey, CachedGlyph)> = Vec::new();
                core::mem::swap(&mut self.entries, &mut entries);
                entries.push((key, glyph));
                let ghost after = Seq::new(entries@.len(), |i: int| (entries@[i].0@, entries@[i].1));
                assert(after =~= before.push((key@, glyph)));
                core::mem::swap(&mut self.entries, &mut entries);
                assert(self@ =~= after);
                true
            },
        }
    }
}

} // verus!
