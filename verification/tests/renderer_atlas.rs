use gui_nvim::renderer::atlas::{record_rasterized, RasterInfo};
use gui_nvim::renderer::font::collection::resolve_in_faces;
use gui_nvim::renderer::atlas::{place_glyph, to_rgba, AtlasPacker, ATLAS_PADDING, ATLAS_SIZE};
use gui_nvim::renderer::batch::{grown_capacity, next_power_of_two, INITIAL_BATCH_CAPACITY};
use gui_nvim::renderer::font::{CollectionIndex, GlyphBuffer, GlyphCacheKey, ShapedCachedGlyph, ShapedGlyphCache, Style};
use gui_nvim::renderer::pipeline::{glyph_flags, FLAG_COLORED_GLYPH, FLAG_TEXTURED};

#[test]
fn test_atlas_allocation_simple() {
    let mut packer = AtlasPacker::new(1024);
    let (x, y) = packer.allocate(10, 20).unwrap();
    assert_eq!(x, 0);
    assert_eq!(y, 0);
    // The next glyph starts right of the padded first one (10 + 1 = 11)
    // and a new row would start below the padded height (20 + 1 = 21).
    assert_eq!(packer.allocate(5, 5), Some((11, 0)));
    let mut wrap = AtlasPacker::new(32);
    wrap.allocate(10, 20).unwrap();
    assert_eq!(wrap.allocate(30, 1), Some((0, 21)));
}

#[test]
fn test_atlas_allocation_row_wrap() {
    let mut packer = AtlasPacker::new(1024);
    // Fill the first row up to column 1020 with glyphs at most 20 tall.
    packer.allocate(1018, 19).unwrap();
    packer.allocate(0, 0).unwrap();
    let (x, y) = packer.allocate(10, 15).unwrap();
    assert_eq!(x, 0, "Should wrap to new row");
    assert_eq!(y, 20, "New row should start at previous row height");
}

#[test]
fn test_to_rgba_rgb_conversion() {
    let rgb_data = vec![255, 128, 64];
    let buffer = GlyphBuffer::Rgb(rgb_data);

    let alpha = (255 + 128 + 64) / 3;
    assert_eq!(alpha, 149);
    assert_eq!(to_rgba(&buffer, 1, 1), vec![255, 255, 255, 149]);
}

#[test]
fn test_to_rgba_rgba_passthrough() {
    let rgba_data = vec![255, 128, 64, 200];
    let buffer = GlyphBuffer::Rgba(rgba_data.clone());

    assert!(buffer.is_colored());
    assert_eq!(to_rgba(&buffer, 1, 1), rgba_data);
}

#[test]
fn test_glyph_cache_key_creation() {
    let key = GlyphCacheKey::new(42, CollectionIndex::primary(Style::Regular));
    assert_eq!(key.glyph_id, 42);
    assert_eq!(key.font_index.style, Style::Regular);
    assert_eq!(key.font_index.idx, 0);
}

#[test]
fn test_shaped_glyph_cache_insert_and_retrieve() {
    let mut cache = ShapedGlyphCache::new();
    let key = GlyphCacheKey::new(100, CollectionIndex::primary(Style::Bold));

    assert!(cache.get(&key).is_none(), "Cache should be empty initially");

    let glyph =
        ShapedCachedGlyph { atlas_x: 50, atlas_y: 100, width: 10, height: 20, bearing_x: 2, bearing_y: 18, is_colored: false };

    cache.insert(key, Some(glyph));

    let result = cache.get(&key);
    assert!(result.is_some());
    let cached = result.unwrap().unwrap();
    assert_eq!(cached.atlas_x, 50);
    assert_eq!(cached.width, 10);
}

#[test]
fn test_shaped_glyph_cache_failure_tracking() {
    let mut cache = ShapedGlyphCache::new();
    let key = GlyphCacheKey::new(0xFFFF, CollectionIndex::primary(Style::Regular));

    cache.insert(key, None);

    let result = cache.get(&key);
    assert!(result.is_some(), "Entry should exist");
    assert!(result.unwrap().is_none(), "Entry should be marked as failed");
}

#[test]
fn test_shaped_cached_glyph_empty() {
    let glyph = ShapedCachedGlyph::empty();
    assert_eq!(glyph.width, 0);
    assert_eq!(glyph.height, 0);
    assert_eq!(glyph.atlas_x, 0);
    assert_eq!(glyph.atlas_y, 0);
    assert!(!glyph.is_colored);
}

#[test]
fn test_atlas_size_constant() {
    assert_eq!(ATLAS_SIZE, 1024, "Atlas size should be 1024");
    assert_eq!(ATLAS_PADDING, 1, "Atlas padding should be 1");
}

#[test]
fn test_collection_index_styles() {
    let styles = [Style::Regular, Style::Bold, Style::Italic, Style::BoldItalic];

    for style in styles {
        let index = CollectionIndex::primary(style);
        assert_eq!(index.style, style);
        assert_eq!(index.idx, 0);

        let fallback = CollectionIndex::new(style, 5);
        assert_eq!(fallback.style, style);
        assert_eq!(fallback.idx, 5);
    }
}

#[test]
fn test_initial_batch_capacity() {
    // Should handle large grids: 200x100 = 20k cells, with glyphs + backgrounds + decorations
    assert!(INITIAL_BATCH_CAPACITY >= 65536);
}

#[test]
fn atlas_full_and_empty_glyphs() {
    let mut packer = AtlasPacker::new(16);
    assert_eq!(packer.allocate(10, 10), Some((0, 0)));
    assert_eq!(packer.allocate(10, 10), None);
    let (g, upload) = place_glyph(&mut packer, 0, 8, 1, 2, true).unwrap();
    assert!(!upload);
    assert_eq!((g.atlas_x, g.atlas_y, g.width, g.height, g.bearing_x, g.bearing_y, g.is_colored), (0, 0, 0, 0, 1, 2, true));
    let (g, upload) = place_glyph(&mut packer, 4, 4, 0, 0, false).unwrap();
    assert!(upload);
    assert_eq!((g.atlas_x, g.atlas_y), (11, 0));
    assert!(place_glyph(&mut packer, 4, 8, 0, 0, false).is_none());
    packer.reset();
    assert_eq!(packer.allocate(4, 4), Some((0, 0)));
    assert_eq!(packer.atlas_size(), 16);
}

#[test]
fn rgba_short_data() {
    // Missing coverage pixels are transparent black; wrong-sized color data is all zero.
    assert_eq!(to_rgba(&GlyphBuffer::Rgb(vec![3, 3, 3]), 2, 1), vec![255, 255, 255, 3, 0, 0, 0, 0]);
    assert_eq!(to_rgba(&GlyphBuffer::Rgba(vec![1, 2, 3]), 1, 1), vec![0, 0, 0, 0]);
    assert_eq!(GlyphBuffer::Rgb(vec![7]).as_bytes(), &[7]);
}

#[test]
fn batch_growth_and_flags() {
    assert_eq!(next_power_of_two(0), 1);
    assert_eq!(next_power_of_two(1), 1);
    assert_eq!(next_power_of_two(65537), 131072);
    assert_eq!(grown_capacity(100, 65536), 65536);
    assert_eq!(grown_capacity(70000, 65536), 131072);
    assert_eq!(glyph_flags(false), FLAG_TEXTURED);
    assert_eq!(glyph_flags(true), FLAG_TEXTURED | FLAG_COLORED_GLYPH);
}

#[test]
fn atlas_records_rasterized_glyphs() {
    let mut cache = ShapedGlyphCache::new();
    let mut packer = AtlasPacker::new(64);
    let key = GlyphCacheKey::new(7, CollectionIndex::primary(Style::Regular));
    // A failure is remembered.
    assert!(record_rasterized(&mut cache, &mut packer, key, None).is_none());
    assert_eq!(cache.get(&key), Some(None));
    // A glyph is placed and remembered.
    let info = RasterInfo { width: 8, height: 9, bearing_x: 1, bearing_y: 7, is_colored: false };
    let (g, upload) = record_rasterized(&mut cache, &mut packer, key, Some(info)).unwrap();
    assert!(upload);
    assert_eq!((g.atlas_x, g.atlas_y, g.width, g.height), (0, 0, 8, 9));
    assert_eq!(cache.get(&key).unwrap().unwrap().width, 8);
    // A glyph that does not fit is not remembered.
    let big = GlyphCacheKey::new(8, CollectionIndex::primary(Style::Regular));
    let huge = RasterInfo { width: 60, height: 60, bearing_x: 0, bearing_y: 0, is_colored: true };
    assert!(record_rasterized(&mut cache, &mut packer, big, Some(huge)).is_none());
    assert!(!cache.contains(&big));
    assert_eq!(cache.len(), 1);
}

#[test]
fn collection_resolves_in_style_then_regular() {
    assert_eq!(
        resolve_in_faces(Style::Bold, &[None, Some(12)], &[Some(3)]),
        Some((CollectionIndex::new(Style::Bold, 1), 12))
    );
    assert_eq!(
        resolve_in_faces(Style::Italic, &[None], &[None, Some(4)]),
        Some((CollectionIndex::new(Style::Regular, 1), 4))
    );
    assert_eq!(resolve_in_faces(Style::Regular, &[None], &[Some(4)]), None);
}

#[test]
fn atlas_many_allocations_never_overlap() {
    let mut packer = AtlasPacker::new(64);
    let sizes: Vec<(u32, u32)> = vec![(10, 5), (20, 12), (30, 3), (7, 7), (40, 9), (2, 30), (15, 15), (60, 4), (5, 5)];
    let mut placed: Vec<(u32, u32, u32, u32)> = Vec::new();
    for (w, h) in sizes {
        if let Some((x, y)) = packer.allocate(w, h) {
            placed.push((x, y, w + 1, h + 1));
        }
    }
    assert!(placed.len() >= 5);
    for i in 0..placed.len() {
        for j in (i + 1)..placed.len() {
            let (x1, y1, w1, h1) = placed[i];
            let (x2, y2, w2, h2) = placed[j];
            assert!(x1 + w1 <= x2 || x2 + w2 <= x1 || y1 + h1 <= y2 || y2 + h2 <= y1, "{:?} {:?}", placed[i], placed[j]);
        }
    }
}
