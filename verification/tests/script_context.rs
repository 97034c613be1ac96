use slideglance::script_context::{ScriptFontContext, CJK_SCRIPT_CODES};
use slideglance::strmap::StrMap;


fn fixture() -> ScriptFontContext {
    let mut major = StrMap::new();
    major.insert("Jpan".to_string(), "Yu Gothic".to_string());
    major.insert("Hang".to_string(), "맑은 고딕".to_string());
    major.insert("Hans".to_string(), "Microsoft YaHei".to_string());
    major.insert("Hant".to_string(), "Microsoft JhengHei".to_string());
    let mut minor = StrMap::new();
    minor.insert("Jpan".to_string(), "Meiryo".to_string());
    minor.insert("Hans".to_string(), "SimSun".to_string());
    ScriptFontContext::new(major, minor)
}

// -- Generic lookup -------------------------------------------------------

#[test]
fn empty_context_returns_none_everywhere() {
    let ctx = ScriptFontContext::empty();
    assert!(ctx.is_empty());
    assert_eq!(ctx.fallback_font("Jpan"), None);
    assert_eq!(ctx.fallback_font("Hang"), None);
    assert_eq!(ctx.fallback_font("Hans"), None);
    assert_eq!(ctx.fallback_font("Hant"), None);
}

#[test]
fn major_font_lookup() {
    let ctx = fixture();
    assert_eq!(ctx.major_font("Jpan"), Some("Yu Gothic"));
    assert_eq!(ctx.major_font("Hang"), Some("맑은 고딕"));
    assert_eq!(ctx.major_font("Unknown"), None);
}

#[test]
fn minor_font_lookup() {
    let ctx = fixture();
    assert_eq!(ctx.minor_font("Jpan"), Some("Meiryo"));
    assert_eq!(ctx.minor_font("Hans"), Some("SimSun"));
    // Hang has no minor entry in fixture.
    assert_eq!(ctx.minor_font("Hang"), None);
}

#[test]
fn fallback_prefers_major_then_minor() {
    let ctx = fixture();
    // Has both major and minor — major wins.
    assert_eq!(ctx.fallback_font("Jpan"), Some("Yu Gothic"));
    // Hang has only major — major used.
    assert_eq!(ctx.fallback_font("Hang"), Some("맑은 고딕"));
    // Major-only minor missing case (Hant has only major).
    assert_eq!(ctx.fallback_font("Hant"), Some("Microsoft JhengHei"));
}

#[test]
fn fallback_uses_minor_when_major_missing() {
    let major = StrMap::new();
    let mut minor = StrMap::new();
    minor.insert("Jpan".to_string(), "Meiryo".to_string());
    let ctx = ScriptFontContext::new(major, minor);
    assert_eq!(ctx.fallback_font("Jpan"), Some("Meiryo"));
}

// -- CJK Script Equality helpers ------------------------------------------

#[test]
fn cjk_fallback_helpers_match_generic_lookup() {
    let ctx = fixture();
    assert_eq!(ctx.jpan_fallback(), ctx.fallback_font("Jpan"));
    assert_eq!(ctx.hang_fallback(), ctx.fallback_font("Hang"));
    assert_eq!(ctx.hans_fallback(), ctx.fallback_font("Hans"));
    assert_eq!(ctx.hant_fallback(), ctx.fallback_font("Hant"));
}

#[test]
fn cjk_fallbacks_iterates_in_canonical_order() {
    let ctx = fixture();
    let collected: Vec<(&str, &str)> = ctx.cjk_fallbacks();
    // ISO 15924 lexicographic: Hang < Hans < Hant < Jpan
    assert_eq!(
        collected,
        vec![
            ("Hang", "맑은 고딕"),
            ("Hans", "Microsoft YaHei"),
            ("Hant", "Microsoft JhengHei"),
            ("Jpan", "Yu Gothic"),
        ]
    );
}

#[test]
fn cjk_fallbacks_skips_missing_scripts() {
    let mut major = StrMap::new();
    major.insert("Jpan".to_string(), "Yu Gothic".to_string());
    major.insert("Hans".to_string(), "Microsoft YaHei".to_string());
    let ctx = ScriptFontContext::new(major, StrMap::new());
    let collected: Vec<(&str, &str)> = ctx.cjk_fallbacks();
    // Lexicographic: Hans before Jpan.
    assert_eq!(
        collected,
        vec![("Hans", "Microsoft YaHei"), ("Jpan", "Yu Gothic")]
    );
}

// -- CJK Script Equality verification --------------------------------------

#[test]
fn cjk_equality_all_four_scripts_have_dedicated_helpers() {
    // Surface-level verification: each CJK script has a named helper
    // that is implementation-equivalent to fallback_font(<code>). This
    // is the structural assertion behind the project rule.
    let ctx = fixture();
    let helpers: [Option<&str>; 4] = [
        ctx.jpan_fallback(),
        ctx.hang_fallback(),
        ctx.hans_fallback(),
        ctx.hant_fallback(),
    ];
    let generic: [Option<&str>; 4] = [
        ctx.fallback_font("Jpan"),
        ctx.fallback_font("Hang"),
        ctx.fallback_font("Hans"),
        ctx.fallback_font("Hant"),
    ];
    assert_eq!(helpers, generic);
}

#[test]
fn cjk_script_codes_constant_lists_all_four_scripts_in_order() {
    // ISO 15924 lexicographic order (KDD-14).
    assert_eq!(CJK_SCRIPT_CODES, ["Hang", "Hans", "Hant", "Jpan"]);
}

// -- Non-CJK scripts work too (Arab / Thai / etc.) ------------------------

#[test]
fn arbitrary_script_codes_are_supported() {
    let mut major = StrMap::new();
    major.insert("Arab".to_string(), "Arial".to_string());
    major.insert("Thai".to_string(), "Cordia New".to_string());
    let ctx = ScriptFontContext::new(major, StrMap::new());
    assert_eq!(ctx.fallback_font("Arab"), Some("Arial"));
    assert_eq!(ctx.fallback_font("Thai"), Some("Cordia New"));
}

// -- Tables exposed for merging / iteration -------------------------------

#[test]
fn major_and_minor_tables_are_exposed() {
    let ctx = fixture();
    assert_eq!(ctx.major_table().len(), 4);
    assert_eq!(ctx.minor_table().len(), 2);
}

#[test]
fn empty_context_has_no_cjk_fallbacks() {
    let ctx = ScriptFontContext::empty();
    assert!(ctx.cjk_fallbacks().is_empty());
    assert_eq!(ctx.major_font("Jpan"), None);
}

#[test]
fn minor_only_context_is_not_empty() {
    let mut minor = StrMap::new();
    minor.insert("Hang".to_string(), "Batang".to_string());
    let ctx = ScriptFontContext::new(StrMap::new(), minor);
    assert!(!ctx.is_empty());
    assert_eq!(ctx.hang_fallback(), Some("Batang"));
    assert_eq!(ctx.cjk_fallbacks(), vec![("Hang", "Batang")]);
}
