//! The engine's long-lived state: fonts, image assets, the glyph cache and a
//! scratch buffer for tinting glyphs.

use crate::glyphs::{cached, has_key, CachedGlyph, GlyphCache, GlyphKey};
use crate::raster::{fits, premultiplied, Raster};
use crate::store::{has_name, lookup, with_entry, Store};
use std::sync::Arc;
use vstd::prelude::*;
use vstd::string::*;

verus! {

/// `fontdue::Font`, a parsed font. The engine keeps fonts and hands them
/// out; it never looks inside one.
#[verifier::external_type_specification]
#[verifier::external_body]
pub struct ExFont(fontdue::Font);

/// An image as a decoder hands it out: straight RGBA8, row by row.
/// Decoding is the caller's business; the engine takes what came of it.
pub struct DecodedImage {
    pub width: u32,
    pub height: u32,
    pub pixels: Vec<u8>,
}

/// The engine's state between renders.
pub struct EngineCore {
    fonts: Store<Arc<fontdue::Font>>,
    assets: Store<Raster>,
    glyph_cache: GlyphCache,
    scratch_buffer: Vec<u8>,
}

/// The message of an asset whose bytes do not fit its size.
pub open spec fn raw_size_error() -> Seq<char> {
    "Failed to create pixmap from raw data"@
}

/// The message of a decoded image whose bytes do not fit its size.
pub open spec fn decoded_size_error() -> Seq<char> {
    "Failed to create pixmap"@
}

impl EngineCore {
    /// The fonts, oldest name first.
    pub closed spec fn fonts(&self) -> Seq<(Seq<char>, Arc<fontdue::Font>)> {
        self.fonts@
    }

    /// The image assets, oldest id first.
    pub closed spec fn assets(&self) -> Seq<(Seq<char>, Raster)> {
        self.assets@
    }

    /// The cached glyphs, oldest first.
    pub closed spec fn glyphs(&self) -> Seq<((Seq<char>, char, u32), CachedGlyph)> {
        self.glyph_cache@
    }

    /// An engine without fonts, assets or cached glyphs, and with an empty
    /// scratch buffer.
    pub fn new() -> (e: EngineCore)
        ensures
            e.fonts().len() == 0,
            e.assets().len() == 0,
            e.glyphs().len() == 0,
            e.scratch_len() == 0,
    {
        EngineCore {
            fonts: Store::new(),
            assets: Store::new(),
            glyph_cache: GlyphCache::new(),
            scratch_buffer: Vec::new(),
        }
    }

    /// Stores a parsed font under `name`, or hands the parser's error on.
    pub fn store_font(&mut self, name: &str, parsed: Result<Arc<fontdue::Font>, String>) -> (r: Result<
        (),
        String,
    >)
        ensures
            final(self).assets() == old(self).assets(),
            final(self).glyphs() == old(self).glyphs(),
            match parsed {
                Ok(font) => {
                    &&& r is Ok
                    &&& final(self).fonts() == with_entry(old(self).fonts(), name@, font)
                    &&& lookup(final(self).fonts(), name@) == Some(font)
                },
                Err(msg) => r == Err::<(), String>(msg) && final(self).fonts() == old(self).fonts(),
            },
    {
        match parsed {
            Ok(font) => {
                self.fonts.insert(name.to_owned(), font);
                Ok(())
            },
            Err(msg) => Err(msg),
        }
    }

    /// Whether any font is loaded. Text is drawn only where one is.
    pub open spec fn spec_has_font(&self) -> bool {
        self.fonts().len() > 0
    }

    #[verifier::when_used_as_spec(spec_has_font)]
    pub fn has_font(&self) -> (r: bool)
        ensures
            r == self.spec_has_font(),
    {
        self.fonts.len() > 0
    }

    /// The font for a family: the one stored under the name, else the oldest
    /// font of the store, else none.
    pub open spec fn spec_font(&self, family: Seq<char>) -> Option<Arc<fontdue::Font>> {
        if has_name(self.fonts(), family) {
            lookup(self.fonts(), family)
        } else if self.fonts().len() > 0 {
            Some(self.fonts()[0].1)
        } else {
            None
        }
    }

    /// The font to set text of the given family in.
    pub fn font(&self, family: &str) -> (r: Option<&Arc<fontdue::Font>>)
        ensures
            match r {
                Some(font) => self.spec_font(family@) == Some(*font),
                None => self.spec_font(family@) is None,
            },
            r is Some <==> self.spec_has_font(),
    {
        match self.fonts.get(family) {
            Some(font) => {
                assert(self.fonts().len() > 0);
                Some(font)
            },
            None => self.fonts.first(),
        }
    }

    /// Whether an image asset is stored under `id`.
    pub fn has_asset(&self, id: &str) -> (r: bool)
        ensures
            r == has_name(self.assets(), id@),
    {
        self.assets.get(id).is_some()
    }

    /// The size that an image node takes from its asset where its own size
    /// is left open: the asset's width and height in pixels. Other nodes, and
    /// image nodes whose asset is not loaded, take none.
    pub open spec fn spec_intrinsic_size(&self, tag: Seq<char>, src: Option<String>) -> Option<(u32, u32)> {
        if tag == "image"@ {
            match src {
                Some(id) => match lookup(self.assets(), id@) {
                    Some(raster) => Some((raster.spec_width(), raster.spec_height())),
                    None => None,
                },
                None => None,
            }
        } else {
            None
        }
    }

    /// The intrinsic size of a node with the given tag and image source.
    pub fn intrinsic_size(&self, tag: &str, src: &Option<String>) -> (r: Option<(u32, u32)>)
        ensures
            r == self.spec_intrinsic_size(tag@, *src),
    {
        if !crate::strings::str_eq(tag, "image") {
            return None;
        }
        match src {
            Some(id) => match self.assets.get(id.as_str()) {
                Some(raster) => Some((raster.width(), raster.height())),
                None => None,
            },
            None => None,
        }
    }

    /// The image asset stored under `id`.
    pub fn asset(&self, id: &str) -> (r: Option<&Raster>)
        ensures
            match r {
                Some(raster) => lookup(self.assets(), id@) == Some(*raster),
                None => lookup(self.assets(), id@) is None,
            },
    {
        self.assets.get(id)
    }

    /// Stores straight RGBA8 pixels of the given size under `id`, premultiplied,
    /// in place of any asset that had the id. Bytes that do not fit the size
    /// are refused and leave the store as it was.
    pub fn load_asset_raw(&mut self, id: &str, data: &[u8], width: u32, height: u32) -> (r: Result<
        (),
        String,
    >)
        ensures
            final(self).fonts() == old(self).fonts(),
            final(self).glyphs() == old(self).glyphs(),
            r is Ok <==> fits(data@.len(), width, height),
            match r {
                Ok(_) => {
                    &&& lookup(final(self).assets(), id@) matches Some(raster)
                    &&& raster.spec_width() == width
                    &&& raster.spec_height() == height
                    &&& raster@ == premultiplied(data@)
                    &&& final(self).assets() == with_entry(old(self).assets(), id@, raster)
                },
                Err(msg) => msg@ == raw_size_error() && final(self).assets() == old(self).assets(),
            },
    {
        let pixels = vstd::slice::slice_to_vec(data);
        match Raster::from_straight(pixels, width, height) {
            Some(raster) => {
                self.assets.insert(id.to_owned(), raster);
                Ok(())
            },
            None => Err("Failed to create pixmap from raw data".to_owned()),
        }
    }

    /// Stores a decoded image under `id`, premultiplied, or hands the decoder's
    /// error on. A decoded image whose bytes do not fit its size is refused.
    pub fn store_asset(&mut self, id: &str, decoded: Result<DecodedImage, String>) -> (r: Result<
        (),
        String,
    >)
        ensures
            final(self).fonts() == old(self).fonts(),
            final(self).glyphs() == old(self).glyphs(),
            r is Ok <==> (decoded matches Ok(img) && fits(img.pixels@.len(), img.width, img.height)),
            match r {
                Ok(_) => {
                    &&& decoded matches Ok(img)
                    &&& lookup(final(self).assets(), id@) matches Some(raster)
                    &&& raster.spec_width() == img.width
                    &&& raster.spec_height() == img.height
                    &&& raster@ == premultiplied(img.pixels@)
                    &&& final(self).assets() == with_entry(old(self).assets(), id@, raster)
                },
                Err(msg) => {
                    &&& final(self).assets() == old(self).assets()
                    &&& match decoded {
                        Ok(_) => msg@ == decoded_size_error(),
                        Err(e) => msg == e,
                    }
                },
            },
    {
        match decoded {
            Ok(img) => {
                match Raster::from_straight(img.pixels, img.width, img.height) {
                    Some(raster) => {
                        self.assets.insert(id.to_owned(), raster);
                        Ok(())
                    },
                    None => Err("Failed to create pixmap".to_owned()),
                }
            },
            Err(e) => Err(e),
        }
    }

    /// The glyph cached under `key`, if any.
    pub fn cached_glyph(&self, key: &GlyphKey) -> (r: Option<&CachedGlyph>)
        ensures
            match r {
                Some(glyph) => cached(self.glyphs(), key@) == Some(*glyph),
                None => cached(self.glyphs(), key@) is None,
            },
    {
        self.glyph_cache.get(key)
    }

    /// Makes sure that `key` has a glyph in the cache: `rasterized` is cached
    /// under it unless a glyph is there already. Says whether it was added.
    pub fn get_glyph(&mut self, key: GlyphKey, rasterized: CachedGlyph) -> (added: bool)
        ensures
            final(self).fonts() == old(self).fonts(),
            final(self).assets() == old(self).assets(),
            added == !has_key(old(self).glyphs(), key@),
            added ==> final(self).glyphs() == old(self).glyphs().push((key@, rasterized)),
            !added ==> final(self).glyphs() == old(self).glyphs(),
            cached(final(self).glyphs(), key@) == if added {
                Some(rasterized)
            } else {
                cached(old(self).glyphs(), key@)
            },
    {
        self.glyph_cache.insert(key, rasterized)
    }

    /// Takes the scratch buffer out of the engine, grown to hold at least
    /// `len` bytes. What it holds is left over from earlier use.
    pub fn take_scratch(&mut self, len: usize) -> (buffer: Vec<u8>)
        ensures
            buffer@.len() >= len,
            buffer@.len() == if old(self).scratch_len() < len {
                len as nat
            } else {
                old(self).scratch_len()
            },
            final(self).scratch_len() == 0,
            final(self).fonts() == old(self).fonts(),
            final(self).assets() == old(self).assets(),
            final(self).glyphs() == old(self).glyphs(),
    {
        let mut buffer: Vec<u8> = Vec::new();
        core::mem::swap(&mut self.scratch_buffer, &mut buffer);
        if buffer.len() < len {
            buffer.resize(len, 0);
        }
        buffer
    }

    /// Gives the scratch buffer back for the next use.
    pub fn return_scratch(&mut self, buffer: Vec<u8>)
        ensures
            final(self).scratch_len() == buffer@.len(),
            final(self).fonts() == old(self).fonts(),
            final(self).assets() == old(self).assets(),
            final(self).glyphs() == old(self).glyphs(),
    {
        self.scratch_buffer = buffer;
    }

    /// The number of bytes that the scratch buffer holds.
    pub closed spec fn scratch_len(&self) -> nat {
        self.scratch_buffer@.len()
    }
}

} // verus!
