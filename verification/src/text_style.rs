//! Text styling and rendering-mode choices shared by the measurers and
//! the text engine.
use vstd::prelude::*;

verus! {

/// Combined bold + italic state passed to text measurement.
#[derive(Copy, Clone, Debug, PartialEq, Eq, Structural)]
pub struct FontStyle {
    /// Bold weight, as `<a:rPr b="1">`.
    pub bold: bool,
    /// Italic posture, as `<a:rPr i="1">`.
    pub italic: bool,
}

impl Default for FontStyle {
    /// Neither bold nor italic.
    fn default() -> (r: Self)
        ensures
            !r.bold,
            !r.italic,
    {
        FontStyle { bold: false, italic: false }
    }
}

/// The measurer backed by heuristics and the fallback metric tables,
/// used when no font data is available.
#[derive(Debug, Default, Clone, Copy)]
pub struct HeuristicTextMeasurer;

/// How text is emitted.
#[derive(Copy, Clone, Debug, PartialEq, Eq, Structural)]
pub enum RenderMode {
    /// Glyph outlines (`<path>`); needs a font resolver.
    PathMode,
    /// Text elements (`<text>`); needs no resolver.
    TextMode,
}

impl Default for RenderMode {
    /// Text mode.
    fn default() -> (r: Self)
        ensures
            r == RenderMode::TextMode,
    {
        RenderMode::TextMode
    }
}

/// The render mode of an engine: path mode when any resolver, plain or
/// variant-aware, was supplied, else text mode.
pub fn render_mode_for(has_resolver: bool, has_variant_resolver: bool) -> (r: RenderMode)
    ensures
        r == (if has_resolver || has_variant_resolver {
            RenderMode::PathMode
        } else {
            RenderMode::TextMode
        }),
{
    if has_resolver || has_variant_resolver {
        RenderMode::PathMode
    } else {
        RenderMode::TextMode
    }
}

} // verus!
