//! Font data: styles and faces of a collection, glyph caches, text runs,
//! shaping results and their cache.

pub mod cache;
pub mod collection;
pub mod face;
pub mod fallback;
pub mod loader;
pub mod platform;
pub mod run;
pub mod shaper;
pub mod shaping_cache;

pub use cache::{CachedGlyph, CachedGlyph as ShapedCachedGlyph, GlyphCacheKey, ShapedGlyphCache};
pub use collection::{CollectionIndex, Style};
pub use face::{FaceError, GlyphBuffer, RasterizedGlyph};
pub use run::{Run, RunIterator};
pub use shaper::{ShapedGlyph, TextRun};
pub use shaping_cache::{CachedShapedRun, ShapingCache, ShapingCacheKey};
