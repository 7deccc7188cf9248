use std::collections::hash_map::DefaultHasher;
use std::hash::{Hash, Hasher};

use gui_nvim::editor::{Cell, CellFlags, HighlightAttributes, HighlightMap, StyleFlags};
use gui_nvim::renderer::font::cache::{CachedGlyph, ShapedGlyphCache};
use gui_nvim::renderer::font::collection::{fallback_hit, CollectionIndex, Style};
use gui_nvim::config::Platform;
use gui_nvim::renderer::font::face::{default_font_family, gray_to_rgb, FaceError, GlyphBuffer};
use gui_nvim::renderer::font::platform::{LinuxSystemFallback, WindowsSystemFallback};
use gui_nvim::renderer::font::run::{Run, RunIterator};
use gui_nvim::renderer::font::shaper::{
    default_features, features_from_names, make_tag, offset_clusters, parse_feature, split_face_runs, ShapedGlyph,
    TextRun,
};
use gui_nvim::renderer::font::shaping_cache::{ShapingCache, ShapingCacheKey, MAX_CACHE_ENTRIES};
use gui_nvim::renderer::font::GlyphCacheKey;

#[test]
fn test_glyph_buffer() {
    let rgb = GlyphBuffer::Rgb(vec![255, 0, 0]);
    assert!(!rgb.is_colored());
    assert_eq!(rgb.as_bytes(), &[255, 0, 0]);

    let rgba = GlyphBuffer::Rgba(vec![255, 0, 0, 255]);
    assert!(rgba.is_colored());
    assert_eq!(rgba.as_bytes(), &[255, 0, 0, 255]);
}

#[test]
fn test_glyph_cache_key_equality() {
    let key1 = GlyphCacheKey::new(42, CollectionIndex::primary(Style::Regular));
    let key2 = GlyphCacheKey::new(42, CollectionIndex::primary(Style::Regular));
    let key3 = GlyphCacheKey::new(43, CollectionIndex::primary(Style::Regular));
    let key4 = GlyphCacheKey::new(42, CollectionIndex::primary(Style::Bold));

    assert_eq!(key1, key2);
    assert_ne!(key1, key3);
    assert_ne!(key1, key4);
}

#[test]
fn test_glyph_cache_key_hash() {
    let key1 = GlyphCacheKey::new(42, CollectionIndex::primary(Style::Regular));
    let key2 = GlyphCacheKey::new(42, CollectionIndex::primary(Style::Regular));

    let mut hasher1 = DefaultHasher::new();
    let mut hasher2 = DefaultHasher::new();
    key1.hash(&mut hasher1);
    key2.hash(&mut hasher2);

    assert_eq!(hasher1.finish(), hasher2.finish());
}

#[test]
fn test_cached_glyph_empty() {
    let glyph = CachedGlyph::empty();
    assert_eq!(glyph.width, 0);
    assert_eq!(glyph.height, 0);
    assert!(!glyph.is_colored);
}

#[test]
fn test_style_from_flags() {
    assert_eq!(Style::from_flags(false, false), Style::Regular);
    assert_eq!(Style::from_flags(true, false), Style::Bold);
    assert_eq!(Style::from_flags(false, true), Style::Italic);
    assert_eq!(Style::from_flags(true, true), Style::BoldItalic);
}

#[test]
fn test_style_properties() {
    assert!(!Style::Regular.is_bold());
    assert!(!Style::Regular.is_italic());

    assert!(Style::Bold.is_bold());
    assert!(!Style::Bold.is_italic());

    assert!(!Style::Italic.is_bold());
    assert!(Style::Italic.is_italic());

    assert!(Style::BoldItalic.is_bold());
    assert!(Style::BoldItalic.is_italic());
}

#[test]
fn test_collection_index() {
    let idx = CollectionIndex::new(Style::Bold, 2);
    assert_eq!(idx.style, Style::Bold);
    assert_eq!(idx.idx, 2);

    let primary = CollectionIndex::primary(Style::Italic);
    assert_eq!(primary.style, Style::Italic);
    assert_eq!(primary.idx, 0);
}

fn make_cell(text: &str, highlight_id: u64) -> Cell {
    Cell { text: text.into(), highlight_id, flags: CellFlags::empty() }
}

fn make_wide_spacer(highlight_id: u64) -> Cell {
    Cell { text: Default::default(), highlight_id, flags: CellFlags::wide_char_spacer() }
}

fn runs_of(cells: &[Cell], highlights: &HighlightMap) -> Vec<Run> {
    RunIterator::new(cells, highlights).collect_runs()
}

#[test]
fn test_single_run() {
    let cells = vec![make_cell("H", 0), make_cell("e", 0), make_cell("l", 0), make_cell("l", 0), make_cell("o", 0)];
    let highlights = HighlightMap::new();

    let runs = runs_of(&cells, &highlights);

    assert_eq!(runs.len(), 1);
    assert_eq!(runs[0].text, "Hello");
    assert_eq!(runs[0].start_col, 0);
    assert_eq!(runs[0].style, Style::Regular);
}

#[test]
fn test_multiple_runs_by_highlight() {
    let cells = vec![make_cell("a", 0), make_cell("b", 0), make_cell("c", 1), make_cell("d", 1), make_cell("e", 2)];
    let highlights = HighlightMap::new();

    let runs = runs_of(&cells, &highlights);

    assert_eq!(runs.len(), 3);
    assert_eq!(runs[0].text, "ab");
    assert_eq!(runs[0].start_col, 0);
    assert_eq!(runs[0].highlight_id, 0);

    assert_eq!(runs[1].text, "cd");
    assert_eq!(runs[1].start_col, 2);
    assert_eq!(runs[1].highlight_id, 1);

    assert_eq!(runs[2].text, "e");
    assert_eq!(runs[2].start_col, 4);
    assert_eq!(runs[2].highlight_id, 2);
}

#[test]
fn test_wide_char_spacers_skipped() {
    let cells = vec![make_cell("あ", 0), make_wide_spacer(0), make_cell("い", 0), make_wide_spacer(0)];
    let highlights = HighlightMap::new();

    let runs = runs_of(&cells, &highlights);

    assert_eq!(runs.len(), 1);
    assert_eq!(runs[0].text, "あい");
    assert_eq!(runs[0].start_col, 0);
}

#[test]
fn test_wide_spacer_at_start() {
    let cells = vec![make_wide_spacer(0), make_cell("a", 0), make_cell("b", 0)];
    let highlights = HighlightMap::new();

    let runs = runs_of(&cells, &highlights);

    assert_eq!(runs.len(), 1);
    assert_eq!(runs[0].text, "ab");
    assert_eq!(runs[0].start_col, 1);
}

#[test]
fn test_empty_cells() {
    let cells: Vec<Cell> = vec![];
    let highlights = HighlightMap::new();

    let runs = runs_of(&cells, &highlights);

    assert!(runs.is_empty());
}

#[test]
fn test_only_wide_spacers() {
    let cells = vec![make_wide_spacer(0), make_wide_spacer(0)];
    let highlights = HighlightMap::new();

    let runs = runs_of(&cells, &highlights);

    assert!(runs.is_empty());
}

#[test]
fn test_bold_style_detection() {
    let cells = vec![make_cell("a", 0), make_cell("b", 1), make_cell("c", 1)];

    let mut highlights = HighlightMap::new();
    highlights.define(1, HighlightAttributes { style: StyleFlags::bold(), ..Default::default() });

    let runs = runs_of(&cells, &highlights);

    assert_eq!(runs.len(), 2);
    assert_eq!(runs[0].style, Style::Regular);
    assert_eq!(runs[1].style, Style::Bold);
}

#[test]
fn test_italic_style_detection() {
    let cells = vec![make_cell("x", 1)];

    let mut highlights = HighlightMap::new();
    highlights.define(1, HighlightAttributes { style: StyleFlags::italic(), ..Default::default() });

    let runs = runs_of(&cells, &highlights);

    assert_eq!(runs.len(), 1);
    assert_eq!(runs[0].style, Style::Italic);
}

#[test]
fn test_bold_italic_style_detection() {
    let cells = vec![make_cell("y", 1)];

    let mut highlights = HighlightMap::new();
    highlights.define(1, HighlightAttributes { style: StyleFlags::bold() | StyleFlags::italic(), ..Default::default() });

    let runs = runs_of(&cells, &highlights);

    assert_eq!(runs.len(), 1);
    assert_eq!(runs[0].style, Style::BoldItalic);
}

#[test]
fn test_run_is_empty() {
    let run = Run { start_col: 0, text: String::new(), style: Style::Regular, highlight_id: 0 };
    assert!(run.is_empty());

    let run = Run { start_col: 0, text: "a".to_string(), style: Style::Regular, highlight_id: 0 };
    assert!(!run.is_empty());
}

#[test]
fn run_spacer_between_highlights_joins_run() {
    // A spacer with another highlight does not end a run.
    let cells = vec![make_cell("a", 1), make_wide_spacer(2), make_cell("b", 1), make_cell("c", 3)];
    let highlights = HighlightMap::new();
    let mut it = RunIterator::new(&cells, &highlights);
    let first = it.next().unwrap();
    assert_eq!((first.start_col, first.text.as_str(), first.highlight_id), (0, "ab", 1));
    let second = it.next().unwrap();
    assert_eq!((second.start_col, second.text.as_str(), second.highlight_id), (3, "c", 3));
    assert!(it.next().is_none());
}

#[test]
fn test_text_run() {
    let run = TextRun { text: "Hello", style: Style::Regular };
    assert_eq!(run.text, "Hello");
    assert_eq!(run.style, Style::Regular);
}

#[test]
fn test_shaped_glyph() {
    let glyph = ShapedGlyph {
        glyph_id: 42,
        cluster: 0,
        x_advance: 512,
        y_advance: 0,
        x_offset: 0,
        y_offset: 0,
        font_index: CollectionIndex::primary(Style::Regular),
    };
    assert_eq!(glyph.glyph_id, 42);
    assert_eq!(glyph.x_advance, 512);
}

#[test]
fn test_make_tag() {
    let tag = make_tag(b'c', b'a', b'l', b't');
    assert_eq!(tag, 0x63616c74); // "calt" in hex
}

#[test]
fn shaper_features() {
    let defaults = default_features();
    assert_eq!(defaults.len(), 2);
    assert_eq!(defaults[0].tag, make_tag(b'c', b'a', b'l', b't'));
    assert_eq!(defaults[1].tag, make_tag(b'l', b'i', b'g', b'a'));
    assert_eq!((defaults[0].value, defaults[0].start, defaults[0].end), (1, 0, u32::MAX));
    assert!(parse_feature(b"ss0").is_none());
    assert_eq!(parse_feature(b"dlig").unwrap().tag, make_tag(b'd', b'l', b'i', b'g'));
    let fs = features_from_names(&[b"dlig", b"x", b"ss01"]);
    assert_eq!(fs.len(), 4);
    assert_eq!(fs[3].tag, make_tag(b's', b's', b'0', b'1'));
}

#[test]
fn shaper_splits_text_among_faces() {
    let primary = CollectionIndex::primary(Style::Regular);
    let fallback = CollectionIndex::new(Style::Regular, 1);
    let resolved = vec![Some(primary), None, Some(primary), Some(fallback), Some(fallback), Some(primary)];
    assert_eq!(split_face_runs(&resolved, Style::Regular), vec![(0, 3, primary), (3, 5, fallback), (5, 6, primary)]);
    // A first character no face has starts in the primary face of the style.
    let bold = CollectionIndex::primary(Style::Bold);
    assert_eq!(split_face_runs(&[None, Some(fallback)], Style::Bold), vec![(0, 1, bold), (1, 2, fallback)]);
    assert!(split_face_runs(&[], Style::Regular).is_empty());
}

#[test]
fn shaper_offsets_clusters() {
    let mut glyphs = vec![make_glyph(1, 10), make_glyph(2, 10)];
    glyphs[1].cluster = 1;
    offset_clusters(&mut glyphs, 5);
    assert_eq!(glyphs[0].cluster, 5);
    assert_eq!(glyphs[1].cluster, 6);
    assert_eq!(glyphs[1].glyph_id, 2);
}

fn make_glyph(glyph_id: u32, x_advance: i32) -> ShapedGlyph {
    ShapedGlyph {
        glyph_id,
        cluster: 0,
        x_advance,
        y_advance: 0,
        x_offset: 0,
        y_offset: 0,
        font_index: CollectionIndex::primary(Style::Regular),
    }
}

#[test]
fn test_cache_hit() {
    let mut cache = ShapingCache::new();

    let key = ShapingCacheKey::new("hello", Style::Regular);
    let glyphs = vec![make_glyph(1, 100), make_glyph(2, 100)];

    cache.insert(key, glyphs.clone());

    let result = cache.get_glyphs(key);
    assert!(result.is_some());
    assert_eq!(result.unwrap().len(), 2);
}

#[test]
fn test_cache_miss() {
    let cache = ShapingCache::new();

    let key = ShapingCacheKey::new("hello", Style::Regular);
    assert!(cache.get_glyphs(key).is_none());
}

#[test]
fn test_different_styles_different_keys() {
    let key_regular = ShapingCacheKey::new("hello", Style::Regular);
    let key_bold = ShapingCacheKey::new("hello", Style::Bold);

    assert_ne!(key_regular, key_bold);
}

#[test]
fn test_same_content_same_key() {
    let key1 = ShapingCacheKey::new("hello", Style::Regular);
    let key2 = ShapingCacheKey::new("hello", Style::Regular);

    assert_eq!(key1, key2);
}

#[test]
fn test_cache_eviction() {
    let mut cache = ShapingCache::new();

    // Fill cache beyond capacity
    for i in 0..(MAX_CACHE_ENTRIES + 100) {
        let text = format!("text{}", i);
        let key = ShapingCacheKey::new(&text, Style::Regular);
        cache.insert(key, vec![make_glyph(i as u32, 100)]);
    }

    // Should have evicted oldest entries
    assert!(cache.len() <= MAX_CACHE_ENTRIES);

    // Oldest entries should be gone
    let old_key = ShapingCacheKey::new("text0", Style::Regular);
    assert!(cache.get_glyphs(old_key).is_none());

    // Newest entries should still be there
    let new_key = ShapingCacheKey::new(&format!("text{}", MAX_CACHE_ENTRIES + 99), Style::Regular);
    assert!(cache.get_glyphs(new_key).is_some());
}

#[test]
fn shaping_cache_test_clear() {
    let mut cache = ShapingCache::new();

    let key = ShapingCacheKey::new("hello", Style::Regular);
    cache.insert(key, vec![make_glyph(1, 100)]);

    assert_eq!(cache.len(), 1);

    cache.clear();

    assert_eq!(cache.len(), 0);
    assert!(cache.get_glyphs(key).is_none());
}

#[test]
fn shaping_cache_replace_keeps_size() {
    let mut cache = ShapingCache::default();
    let key = ShapingCacheKey::new("a", Style::Italic);
    cache.insert(key, vec![make_glyph(1, 1)]);
    cache.insert(key, vec![make_glyph(2, 1), make_glyph(3, 1)]);
    assert_eq!(cache.len(), 1);
    assert_eq!(cache.get_glyphs(key).unwrap()[0].glyph_id, 2);
}

#[test]
fn face_errors_and_fallbacks() {
    assert_eq!(FaceError::FontNotFound("Mono".to_string()).message(), "Failed to create font with name: Mono");
    assert_eq!(FaceError::TableCopyFailed.message(), "Failed to copy font table");
    assert!(!LinuxSystemFallback::new().discover('A' as u32));
    assert!(!WindowsSystemFallback::new().discover('😀' as u32));
}

#[test]
fn face_gray_to_rgb_triples_each_byte() {
    let b = gray_to_rgb(&[0, 128, 255]);
    assert!(!b.is_colored());
    assert_eq!(b.as_bytes(), &[0, 0, 0, 128, 128, 128, 255, 255, 255]);
    let empty = gray_to_rgb(&[]);
    assert!(empty.as_bytes().is_empty());
}

#[test]
fn test_ligature_potential_run() {
    // Test that ligature sequences stay together
    let cells = vec![make_cell("-", 0), make_cell(">", 0), make_cell(" ", 0), make_cell("=", 0), make_cell("=", 0)];
    let highlights = HighlightMap::new();

    let runs = runs_of(&cells, &highlights);

    assert_eq!(runs.len(), 1);
    assert_eq!(runs[0].text, "-> ==");
}

#[test]
fn test_mixed_content() {
    // Realistic example: keyword (bold) + space + identifier (regular) + operator
    let cells = vec![
        make_cell("l", 1),
        make_cell("e", 1),
        make_cell("t", 1),
        make_cell(" ", 0),
        make_cell("x", 0),
        make_cell(" ", 0),
        make_cell("=", 2),
        make_cell(" ", 0),
        make_cell("1", 3),
    ];

    let mut highlights = HighlightMap::new();
    highlights.define(1, HighlightAttributes { style: StyleFlags::bold(), ..Default::default() });
    // 2 and 3 have different colors but default style

    let runs = runs_of(&cells, &highlights);

    assert_eq!(runs.len(), 5);
    assert_eq!(runs[0].text, "let");
    assert_eq!(runs[0].style, Style::Bold);
    assert_eq!(runs[1].text, " x ");
    assert_eq!(runs[2].text, "=");
    assert_eq!(runs[3].text, " ");
    assert_eq!(runs[4].text, "1");
}

fn glyph_at(atlas_x: u32, width: u32, is_colored: bool) -> CachedGlyph {
    CachedGlyph { atlas_x, atlas_y: 0, width, height: 16, bearing_x: 0, bearing_y: 14, is_colored }
}

#[test]
fn test_shaped_glyph_cache_basic() {
    let mut cache = ShapedGlyphCache::new();
    let key = GlyphCacheKey::new(100, CollectionIndex::primary(Style::Regular));

    assert!(cache.get(&key).is_none());
    assert!(!cache.contains(&key));

    let glyph = CachedGlyph { atlas_x: 10, atlas_y: 20, width: 8, height: 16, bearing_x: 1, bearing_y: 14, is_colored: false };

    cache.insert(key, Some(glyph));

    assert!(cache.contains(&key));
    let result = cache.get(&key);
    assert!(result.is_some());
    let cached = result.unwrap().unwrap();
    assert_eq!(cached.atlas_x, 10);
    assert_eq!(cached.atlas_y, 20);
    assert_eq!(cached.width, 8);
}

#[test]
fn test_shaped_glyph_cache_failure() {
    let mut cache = ShapedGlyphCache::new();
    let key = GlyphCacheKey::new(0xFFFF, CollectionIndex::primary(Style::Regular));

    cache.insert(key, None);

    let result = cache.get(&key);
    assert!(result.is_some()); // Entry exists
    assert!(result.unwrap().is_none()); // But marked as failed
}

#[test]
fn test_shaped_glyph_cache_clear() {
    let mut cache = ShapedGlyphCache::new();
    let key = GlyphCacheKey::new(42, CollectionIndex::primary(Style::Regular));

    cache.insert(key, Some(CachedGlyph::empty()));
    assert_eq!(cache.len(), 1);

    cache.clear();
    assert!(cache.is_empty());
    assert!(!cache.contains(&key));
}

#[test]
fn test_shaped_glyph_cache_multiple_entries() {
    let mut cache = ShapedGlyphCache::new();

    for i in 0..10 {
        let key = GlyphCacheKey::new(i, CollectionIndex::primary(Style::Regular));
        cache.insert(key, Some(glyph_at(i * 10, 8, false)));
    }

    assert_eq!(cache.len(), 10);

    for i in 0..10 {
        let key = GlyphCacheKey::new(i, CollectionIndex::primary(Style::Regular));
        let cached = cache.get(&key).unwrap().unwrap();
        assert_eq!(cached.atlas_x, i * 10);
    }
}

#[test]
fn test_shaped_glyph_cache_different_styles() {
    let mut cache = ShapedGlyphCache::new();

    let glyph_id = 65; // 'A'
    let styles = [Style::Regular, Style::Bold, Style::Italic, Style::BoldItalic];

    for (i, style) in styles.iter().enumerate() {
        let key = GlyphCacheKey::new(glyph_id, CollectionIndex::primary(*style));
        cache.insert(key, Some(glyph_at(i as u32 * 10, 8, false)));
    }

    assert_eq!(cache.len(), 4);

    for (i, style) in styles.iter().enumerate() {
        let key = GlyphCacheKey::new(glyph_id, CollectionIndex::primary(*style));
        let cached = cache.get(&key).unwrap().unwrap();
        assert_eq!(cached.atlas_x, i as u32 * 10);
    }
}

#[test]
fn test_shaped_glyph_cache_fallback_fonts() {
    let mut cache = ShapedGlyphCache::new();

    let glyph_id = 42;
    // Primary font (idx 0)
    let key1 = GlyphCacheKey::new(glyph_id, CollectionIndex::new(Style::Regular, 0));
    // First fallback (idx 1)
    let key2 = GlyphCacheKey::new(glyph_id, CollectionIndex::new(Style::Regular, 1));

    cache.insert(key1, Some(glyph_at(0, 8, false)));
    cache.insert(key2, Some(glyph_at(10, 10, true)));

    assert_eq!(cache.len(), 2);

    let cached1 = cache.get(&key1).unwrap().unwrap();
    let cached2 = cache.get(&key2).unwrap().unwrap();

    assert_eq!(cached1.atlas_x, 0);
    assert!(!cached1.is_colored);
    assert_eq!(cached2.atlas_x, 10);
    assert!(cached2.is_colored);
}

#[test]
fn test_shaped_glyph_cache_default() {
    let cache = ShapedGlyphCache::default();
    assert!(cache.is_empty());
}

#[test]
fn test_glyph_cache_key_debug() {
    let key = GlyphCacheKey::new(42, CollectionIndex::primary(Style::Bold));
    let debug_str = format!("{:?}", key);
    assert!(debug_str.contains("42"));
    assert!(debug_str.contains("Bold"));
}

#[test]
fn fallback_test_system_fallback_not_implemented() {
    let linux = LinuxSystemFallback::new();
    assert!(!linux.discover('A' as u32));
    assert!(!linux.discover('😀' as u32));

    let windows = WindowsSystemFallback::new();
    assert!(!windows.discover('A' as u32));
    assert!(!windows.discover('😀' as u32));
}

#[test]
fn face_default_font_family_per_platform() {
    assert_eq!(default_font_family(Platform::MacOs), "Menlo");
    assert_eq!(default_font_family(Platform::Windows), "Consolas");
    assert_eq!(default_font_family(Platform::Other), "monospace");
}

#[test]
fn shaping_cache_keeps_the_newest_keys_in_order() {
    let mut cache = ShapingCache::new();
    let total = MAX_CACHE_ENTRIES + 10;
    for i in 0..total {
        let key = ShapingCacheKey::new(&format!("run{}", i), Style::Regular);
        cache.insert(key, vec![make_glyph(i as u32, 100)]);
        assert!(cache.len() <= MAX_CACHE_ENTRIES);
        assert!(cache.get_glyphs(key).is_some());
    }
    assert_eq!(cache.len(), MAX_CACHE_ENTRIES);
    for i in 0..10 {
        assert!(cache.get_glyphs(ShapingCacheKey::new(&format!("run{}", i), Style::Regular)).is_none());
    }
    for i in 10..total {
        assert!(cache.get_glyphs(ShapingCacheKey::new(&format!("run{}", i), Style::Regular)).is_some());
    }
}

#[test]
fn runs_keep_one_highlight_each() {
    let cells = vec![make_cell("a", 1), make_wide_spacer(7), make_cell("b", 1), make_cell("c", 2), make_cell("d", 1)];
    let highlights = HighlightMap::new();
    let runs = runs_of(&cells, &highlights);
    assert_eq!(runs.len(), 3);
    assert_eq!((runs[0].start_col, runs[0].highlight_id, runs[0].text.as_str()), (0, 1, "ab"));
    assert_eq!((runs[1].start_col, runs[1].highlight_id), (3, 2));
    assert_eq!((runs[2].start_col, runs[2].highlight_id), (4, 1));
    for w in runs.windows(2) {
        assert_ne!(w[0].highlight_id, w[1].highlight_id);
    }
}

#[test]
fn shaping_key_is_the_hash_of_text_then_style() {
    for style in [Style::Regular, Style::Bold, Style::Italic, Style::BoldItalic] {
        for text in ["", "hello", "-> ==", "日本"] {
            let mut hasher = DefaultHasher::new();
            text.hash(&mut hasher);
            style.hash(&mut hasher);
            assert_eq!(ShapingCacheKey::new(text, style).0, hasher.finish());
        }
    }
}

#[test]
fn collection_fallback_face_goes_after_the_style_faces() {
    assert_eq!(fallback_hit(Style::Bold, 2, Some(77)), Some((CollectionIndex::new(Style::Bold, 2), 77)));
    assert_eq!(fallback_hit(Style::Regular, 0, Some(5)), Some((CollectionIndex::new(Style::Regular, 0), 5)));
    assert_eq!(fallback_hit(Style::Italic, 3, None), None);
}
