//! Verified core of the slideglance presentation toolkit.
pub mod bytes;
pub mod cache;
pub mod cjk_fallback;
pub mod collector;
pub mod color;
pub mod emf;
pub mod emfplus;
pub mod fallback_metrics;
pub mod font_fetcher;
pub mod font_resolver;
pub mod fragments;
pub mod latin_defaults;
pub mod mapping;
pub mod metafile;
pub mod model;
pub mod opentype;
pub mod raster;
pub mod scheme;
pub mod script;
pub mod script_context;
pub mod strmap;
pub mod strs;
pub mod system_fonts;
pub mod text_style;
pub mod theme;
pub mod ttc;
pub mod wmf;
pub mod wrap;
