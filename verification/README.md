# slideglance

Font, color and metafile logic for rendering PowerPoint (OOXML)
presentations, verified with Verus.

- `src/` is the verified library. Each public function states its result
  in `ensures` over spec functions and views; laws that relate several
  functions are public proof functions named `law_*`.
  - fonts: `mapping` (PPTX → OSS substitution table and lookup),
    `cjk_fallback`, `latin_defaults`, `script_context`, `theme`,
    `collector`, `fallback_metrics`, `script` / `fragments` (script
    classification and splitting), `wrap` (wrap tokenization and line
    assembly), `font_resolver` (name normalization, the host face table
    and the resolver lookup orders), `opentype` (family names from the
    `name` table), `system_fonts` (which installed faces a request asks
    for), `cache` and `font_fetcher` (fetched-font cache), `ttc`
    (TrueType collections), `text_style`;
  - colors: `color` (hex parsing and formatting), `scheme` (theme slots,
    color maps, presets, transforms as stored);
  - metafiles: `metafile`, `emf`, `emfplus`, `wmf`, `raster`, `bytes`;
  - `model` (the presentation model's plain enums), `strmap` and `strs`
    (ordered string maps and character helpers).
- `app/` is the host layer: floating-point color transforms, text
  measurement, wrapping and glyph outlines, `ttf-parser` font faces, the
  installed-font scan, the resolver trait objects and the locked fetch
  cache, and the JavaScript-facing measurer.
- `tests/` exercises the library.
