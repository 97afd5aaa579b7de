use std::sync::Arc;
use ube_core::engine::{DecodedImage, EngineCore};
use ube_core::glyphs::{CachedGlyph, GlyphKey, GlyphMetrics};

/// A 2 by 2 PNG: (200, 100, 50, 128), (255, 255, 255, 255), (10, 20, 30, 0), (0, 255, 0, 64).
const PNG: [u8; 82] = [
    137, 80, 78, 71, 13, 10, 26, 10, 0, 0, 0, 13, 73, 72, 68, 82, 0, 0, 0, 2, 0, 0, 0, 2, 8, 6, 0, 0, 0, 114, 182, 13, 36, 0, 0, 0, 25, 73, 68, 65, 84, 120, 156, 99, 56, 145, 98, 212, 240, 31, 8, 24, 184, 68, 228, 24, 24, 254, 51, 56, 0, 0, 80, 39, 7, 86, 212, 117, 65, 195, 0, 0, 0, 0, 73, 69, 78, 68, 174, 66, 96, 130,
];

/// A small TrueType font.
const FONT: [u8; 400] = [
    0, 1, 0, 0, 0, 7, 0, 64, 0, 2, 0, 48, 99, 109, 97, 112, 0, 9, 0, 118, 0, 0, 1, 0, 0, 0, 0, 44,
    103, 108, 121, 102, 241, 203, 102, 152, 0, 0, 1, 52, 0, 0, 0, 92, 104, 101, 97, 100, 242, 53,
    221, 248, 0, 0, 0, 124, 0, 0, 0, 54, 104, 104, 101, 97, 6, 97, 0, 202, 0, 0, 0, 180, 0, 0, 0,
    36, 104, 109, 116, 120, 4, 116, 0, 106, 0, 0, 0, 248, 0, 0, 0, 8, 108, 111, 99, 97, 0, 46, 0,
    20, 0, 0, 1, 44, 0, 0, 0, 6, 109, 97, 120, 112, 0, 5, 0, 11, 0, 0, 0, 216, 0, 0, 0, 32, 0, 1, 0,
    0, 0, 1, 0, 0, 245, 156, 41, 68, 95, 15, 60, 245, 0, 2, 3, 232, 0, 0, 0, 0, 180, 146, 244, 0, 0,
    0, 0, 0, 220, 47, 166, 92, 0, 6, 0, 0, 2, 88, 2, 188, 0, 0, 0, 3, 0, 2, 0, 0, 0, 0, 0, 0, 0, 1,
    0, 0, 4, 0, 254, 112, 0, 0, 2, 88, 0, 6, 255, 255, 2, 88, 0, 1, 0, 0, 0, 0, 0, 0, 0, 0, 0, 0, 0,
    0, 0, 0, 0, 2, 0, 1, 0, 0, 0, 2, 0, 11, 0, 2, 0, 0, 0, 0, 0, 0, 0, 0, 0, 0, 0, 0, 0, 0, 0, 0, 0,
    0, 0, 0, 0, 0, 2, 88, 0, 100, 2, 28, 0, 6, 0, 0, 0, 1, 0, 0, 0, 3, 0, 0, 0, 12, 0, 4, 0, 32, 0,
    0, 0, 4, 0, 4, 0, 1, 0, 0, 0, 65, 255, 255, 0, 0, 0, 65, 255, 255, 255, 192, 0, 1, 0, 0, 0, 0,
    0, 0, 0, 20, 0, 46, 0, 0, 0, 2, 0, 100, 0, 0, 2, 88, 2, 188, 0, 3, 0, 7, 0, 0, 51, 17, 33, 17,
    37, 33, 17, 33, 100, 1, 244, 254, 52, 1, 164, 254, 92, 2, 188, 253, 68, 40, 2, 108, 0, 2, 0, 6,
    0, 0, 2, 29, 2, 144, 0, 2, 0, 10, 0, 0, 19, 51, 3, 1, 19, 51, 19, 35, 39, 35, 7, 173, 196, 99,
    254, 248, 218, 96, 221, 89, 62, 239, 66, 1, 11, 1, 64, 253, 181, 2, 144, 253, 112, 200, 200, 0,
];

/// Parses a font file and stores what came of it.
fn load_font(engine: &mut EngineCore, name: &str, data: &[u8]) -> Result<(), String> {
    let parsed = fontdue::Font::from_bytes(data, fontdue::FontSettings::default())
        .map(Arc::new)
        .map_err(|e| e.to_string());
    engine.store_font(name, parsed)
}

/// Decodes an image file and stores what came of it.
fn load_asset(engine: &mut EngineCore, id: &str, data: &[u8]) -> Result<(), String> {
    let decoded = image::load_from_memory(data)
        .map(|img| {
            let rgba = img.to_rgba8();
            DecodedImage { width: rgba.width(), height: rgba.height(), pixels: rgba.into_raw() }
        })
        .map_err(|e| e.to_string());
    engine.store_asset(id, decoded)
}

fn glyph(width: usize, height: usize, fill: u8) -> CachedGlyph {
    CachedGlyph { metrics: GlyphMetrics { xmin: 1, ymin: -2, width, height }, bitmap: vec![fill; width * height] }
}

fn key(font: &str, c: char, size: u32) -> GlyphKey {
    GlyphKey { font: font.to_string(), c, size }
}

#[test]
fn a_new_engine_is_empty() {
    let mut engine = EngineCore::new();
    assert_eq!(engine.take_scratch(0).len(), 0);
    assert!(!engine.has_font());
    assert!(engine.font("default").is_none());
    assert!(!engine.has_asset("logo"));
    assert!(engine.asset("logo").is_none());
    assert!(engine.cached_glyph(&key("default", 'a', 3200)).is_none());
}

#[test]
fn raw_assets_are_premultiplied() {
    let mut engine = EngineCore::new();
    let data = [200, 100, 50, 128, 255, 255, 255, 255, 10, 20, 30, 0, 0, 255, 0, 64];
    assert_eq!(engine.load_asset_raw("frame", &data, 2, 2), Ok(()));
    let asset = engine.asset("frame").unwrap();
    assert_eq!((asset.width(), asset.height()), (2, 2));
    assert_eq!(asset.data(), &[100, 50, 25, 128, 255, 255, 255, 255, 0, 0, 0, 0, 0, 64, 0, 64]);
    assert!(engine.has_asset("frame"));
    assert!(!engine.has_asset("Frame"));
}

#[test]
fn raw_assets_must_fit_their_size() {
    let mut engine = EngineCore::new();
    let err = Err("Failed to create pixmap from raw data".to_string());
    assert_eq!(engine.load_asset_raw("a", &[0; 16], 2, 3), err);
    assert_eq!(engine.load_asset_raw("a", &[0; 15], 2, 2), err);
    assert_eq!(engine.load_asset_raw("a", &[], 0, 0), err);
    assert_eq!(engine.load_asset_raw("a", &[0; 16], 0, 4), err);
    assert!(!engine.has_asset("a"));
}

#[test]
fn an_asset_replaces_the_one_under_its_id() {
    let mut engine = EngineCore::new();
    engine.load_asset_raw("a", &[1, 1, 1, 255], 1, 1).unwrap();
    engine.load_asset_raw("b", &[2, 2, 2, 255], 1, 1).unwrap();
    engine.load_asset_raw("a", &[3, 3, 3, 255, 4, 4, 4, 255], 2, 1).unwrap();
    assert_eq!(engine.asset("a").unwrap().data(), &[3, 3, 3, 255, 4, 4, 4, 255]);
    assert_eq!(engine.asset("a").unwrap().width(), 2);
    assert_eq!(engine.asset("b").unwrap().data(), &[2, 2, 2, 255]);
    // a refused load leaves the asset in place
    assert!(engine.load_asset_raw("a", &[0; 3], 1, 1).is_err());
    assert_eq!(engine.asset("a").unwrap().width(), 2);
}

#[test]
fn encoded_assets_are_decoded_and_premultiplied() {
    let mut engine = EngineCore::new();
    assert_eq!(load_asset(&mut engine, "logo", &PNG), Ok(()));
    let asset = engine.asset("logo").unwrap();
    assert_eq!((asset.width(), asset.height()), (2, 2));
    assert_eq!(asset.data(), &[100, 50, 25, 128, 255, 255, 255, 255, 0, 0, 0, 0, 0, 64, 0, 64]);
    assert_eq!(asset.pixel(1, 1), Some((0, 64, 0, 64)));
}

#[test]
fn bytes_that_are_no_image_are_refused() {
    let mut engine = EngineCore::new();
    let r = load_asset(&mut engine, "logo", b"certainly not an image");
    assert!(r.is_err());
    assert!(!r.unwrap_err().is_empty());
    assert!(load_asset(&mut engine, "logo", &PNG[..40]).is_err());
    assert!(!engine.has_asset("logo"));
}

#[test]
fn the_intrinsic_size_is_that_of_the_asset() {
    let mut engine = EngineCore::new();
    engine.load_asset_raw("wide", &[0; 24], 3, 2).unwrap();
    let src = Some("wide".to_string());
    assert_eq!(engine.intrinsic_size("image", &src), Some((3, 2)));
    assert_eq!(engine.intrinsic_size("view", &src), None);
    assert_eq!(engine.intrinsic_size("image", &None), None);
    assert_eq!(engine.intrinsic_size("image", &Some("tall".to_string())), None);
}

#[test]
fn bytes_that_are_no_font_are_refused() {
    let mut engine = EngineCore::new();
    let r = load_font(&mut engine, "default", b"certainly not a font");
    assert!(r.is_err());
    assert!(!r.unwrap_err().is_empty());
    assert!(!engine.has_font());
    assert!(load_font(&mut engine, "default", &[]).is_err());
}

#[test]
fn a_font_is_found_by_name_or_as_a_fallback() {
    let mut engine = EngineCore::new();
    assert_eq!(load_font(&mut engine, "body", &FONT), Ok(()));
    assert!(engine.has_font());
    assert!(engine.font("body").is_some());
    // any font serves where the family is not loaded
    assert!(engine.font("default").is_some());
    assert_eq!(load_font(&mut engine, "body", &FONT), Ok(()));
    assert_eq!(load_font(&mut engine, "title", &FONT), Ok(()));
    assert!(engine.font("title").is_some());
}

#[test]
fn a_font_replaces_the_one_under_its_name() {
    let mut engine = EngineCore::new();
    let parse = || Arc::new(fontdue::Font::from_bytes(&FONT[..], fontdue::FontSettings::default()).unwrap());
    let (first, second, third) = (parse(), parse(), parse());
    assert_eq!(engine.store_font("body", Ok(first.clone())), Ok(()));
    assert_eq!(engine.store_font("title", Ok(second.clone())), Ok(()));
    assert!(Arc::ptr_eq(engine.font("body").unwrap(), &first));
    assert!(Arc::ptr_eq(engine.font("title").unwrap(), &second));
    // the oldest font serves a family that is not loaded
    assert!(Arc::ptr_eq(engine.font("default").unwrap(), &first));
    assert_eq!(engine.store_font("body", Ok(third.clone())), Ok(()));
    assert!(Arc::ptr_eq(engine.font("body").unwrap(), &third));
    assert!(Arc::ptr_eq(engine.font("default").unwrap(), &third));
    assert!(Arc::ptr_eq(engine.font("title").unwrap(), &second));
}

#[test]
fn a_glyph_key_keeps_its_first_raster() {
    let mut engine = EngineCore::new();
    let k = key("body", 'a', 3200);
    assert!(engine.get_glyph(k.clone(), glyph(2, 3, 7)));
    assert_eq!(engine.cached_glyph(&k).unwrap().bitmap, vec![7; 6]);
    // asking again changes nothing
    assert!(!engine.get_glyph(k.clone(), glyph(5, 5, 9)));
    let cached = engine.cached_glyph(&k).unwrap();
    assert_eq!(cached.bitmap, vec![7; 6]);
    assert_eq!(cached.metrics, GlyphMetrics { xmin: 1, ymin: -2, width: 2, height: 3 });
}

#[test]
fn glyph_keys_differ_in_any_part() {
    let mut engine = EngineCore::new();
    assert!(engine.get_glyph(key("body", 'a', 3200), glyph(1, 1, 1)));
    assert!(engine.get_glyph(key("body", 'b', 3200), glyph(1, 1, 2)));
    assert!(engine.get_glyph(key("body", 'a', 3201), glyph(1, 1, 3)));
    assert!(engine.get_glyph(key("head", 'a', 3200), glyph(1, 1, 4)));
    assert_eq!(engine.cached_glyph(&key("body", 'a', 3200)).unwrap().bitmap, vec![1]);
    assert_eq!(engine.cached_glyph(&key("body", 'b', 3200)).unwrap().bitmap, vec![2]);
    assert_eq!(engine.cached_glyph(&key("body", 'a', 3201)).unwrap().bitmap, vec![3]);
    assert_eq!(engine.cached_glyph(&key("head", 'a', 3200)).unwrap().bitmap, vec![4]);
    assert!(engine.cached_glyph(&key("head", 'b', 3200)).is_none());
}

#[test]
fn a_glyph_without_area_is_not_drawable() {
    assert!(glyph(2, 3, 0).is_drawable());
    assert!(!glyph(0, 3, 0).is_drawable());
    assert!(!glyph(2, 0, 0).is_drawable());
    assert_eq!(glyph(2, 3, 0).tinted_len(), Some(24));
    assert_eq!(glyph(0, 3, 0).tinted_len(), Some(0));
    let huge = CachedGlyph {
        metrics: GlyphMetrics { xmin: 0, ymin: 0, width: usize::MAX / 2, height: 3 },
        bitmap: vec![],
    };
    assert_eq!(huge.tinted_len(), None);
}

#[test]
fn the_scratch_buffer_grows_and_is_reused() {
    let mut engine = EngineCore::new();
    let mut buffer = engine.take_scratch(24);
    assert_eq!(buffer.len(), 24);
    buffer[0] = 9;
    engine.return_scratch(buffer);
    let buffer = engine.take_scratch(8);
    assert_eq!(buffer.len(), 24);
    assert_eq!(buffer[0], 9);
    engine.return_scratch(buffer);
    assert_eq!(engine.take_scratch(100).len(), 100);
}

#[test]
fn a_decoded_image_must_fit_its_size() {
    let mut engine = EngineCore::new();
    let short = DecodedImage { width: 2, height: 2, pixels: vec![0; 12] };
    assert_eq!(engine.store_asset("a", Ok(short)), Err("Failed to create pixmap".to_string()));
    let empty = DecodedImage { width: 0, height: 0, pixels: vec![] };
    assert_eq!(engine.store_asset("a", Ok(empty)), Err("Failed to create pixmap".to_string()));
    assert!(!engine.has_asset("a"));
    let fine = DecodedImage { width: 1, height: 2, pixels: vec![255, 0, 0, 128, 0, 0, 0, 255] };
    assert_eq!(engine.store_asset("a", Ok(fine)), Ok(()));
    assert_eq!(engine.asset("a").unwrap().data(), &[128, 0, 0, 128, 0, 0, 0, 255]);
}

#[test]
fn a_decoding_error_is_handed_on() {
    let mut engine = EngineCore::new();
    assert_eq!(engine.store_asset("a", Err("no such format".to_string())), Err("no such format".to_string()));
    assert_eq!(engine.store_font("f", Err("bad table".to_string())), Err("bad table".to_string()));
    assert!(!engine.has_asset("a"));
    assert!(!engine.has_font());
}
