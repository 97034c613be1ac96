use slideglance::cjk_fallback::CjkPlatform;
use slideglance::font_resolver::{
    cjk_candidates, face_registration, first_some, mapped_candidates, measurer_candidates,
    normalize_font_name, standard_chain_candidates,
    BufferFontResolver,
};
use slideglance::mapping::{default_font_mapping, FontMapping};
use slideglance::text_style::FontStyle;

const BOLD: FontStyle = FontStyle { bold: true, italic: false };

// -- normalize_font_name --------------------------------------------------

#[test]
fn normalize_strips_separators_and_lowercases() {
    assert_eq!(normalize_font_name("Apple SD Gothic Neo"), "applesdgothicneo");
    assert_eq!(normalize_font_name("AppleSDGothicNeo"), "applesdgothicneo");
    assert_eq!(normalize_font_name("apple-sd-gothic-neo"), "applesdgothicneo");
    assert_eq!(normalize_font_name("Noto_Sans.JP+"), "notosansjp");
}

#[test]
fn normalize_folds_full_width_latin() {
    assert_eq!(normalize_font_name("Ｐｒｉｎｔ"), "print");
    assert_eq!(normalize_font_name("ＭＳ　ゴシック"), "msゴシック");
}

#[test]
fn normalize_folds_ascii_letters_only() {
    assert_eq!(normalize_font_name("ÉCOLE"), "École");
    assert_eq!(normalize_font_name("Nanum\u{200B}Gothic"), "nanum\u{200B}gothic");
    assert_eq!(normalize_font_name("A\tB\nC\u{0C}D\rE"), "abcde");
    assert_eq!(normalize_font_name(""), "");
}

// -- BufferFontResolver ---------------------------------------------------

#[test]
fn buffer_resolver_empty_returns_none() {
    let resolver: BufferFontResolver<String> = BufferFontResolver::new();
    assert!(resolver.resolve("Calibri").is_none());
    assert_eq!(resolver.len(), 0);
    assert!(resolver.is_empty());
}

#[test]
fn buffer_resolver_default_is_empty() {
    let resolver: BufferFontResolver<String> = BufferFontResolver::default();
    assert!(resolver.is_empty());
    assert_eq!(resolver.iter().len(), 0);
}

#[test]
fn buffer_resolver_from_entries_empty() {
    let resolver: BufferFontResolver<String> = BufferFontResolver::from_entries(Vec::new());
    assert!(resolver.is_empty());
}

#[test]
fn buffer_resolver_variant_returns_none_for_unknown_name() {
    let r: BufferFontResolver<String> = BufferFontResolver::default();
    assert!(r.resolve_variant("Unknown Font", BOLD).is_none());
}

#[test]
fn buffer_resolver_finds_exact_then_normalized_spelling() {
    let mut r = BufferFontResolver::new();
    r.insert("Apple SD Gothic Neo".to_string(), "face-a".to_string());
    assert_eq!(r.resolve("Apple SD Gothic Neo").map(|s| s.as_str()), Some("face-a"));
    assert_eq!(r.resolve("AppleSDGothicNeo").map(|s| s.as_str()), Some("face-a"));
    assert_eq!(r.resolve("apple-sd-gothic-neo").map(|s| s.as_str()), Some("face-a"));
    assert!(r.resolve("Apple Gothic").is_none());
    assert_eq!(r.len(), 1);
}

#[test]
fn buffer_resolver_later_insert_replaces() {
    let mut r = BufferFontResolver::new();
    r.insert("Calibri".to_string(), "old".to_string());
    r.insert("Calibri".to_string(), "new".to_string());
    assert_eq!(r.resolve("Calibri").map(|s| s.as_str()), Some("new"));
    assert_eq!(r.len(), 1);
}

#[test]
fn buffer_resolver_bold_slot_is_separate() {
    let mut r = BufferFontResolver::new();
    r.insert("Pretendard".to_string(), "regular".to_string());
    r.insert_bold_variant("Pretendard".to_string(), "bold".to_string());
    assert_eq!(r.resolve("Pretendard").map(|s| s.as_str()), Some("regular"));
    assert_eq!(r.resolve_variant("Pretendard", BOLD).map(|s| s.as_str()), Some("bold"));
    assert_eq!(r.resolve_variant("pretendard", BOLD).map(|s| s.as_str()), Some("bold"));
    let italic = FontStyle { bold: false, italic: true };
    assert!(r.resolve_variant("Pretendard", italic).is_none());
    assert_eq!(r.len(), 1);
}

#[test]
fn buffer_resolver_falls_back_to_bold_only_family() {
    let mut r = BufferFontResolver::new();
    r.insert_bold_variant("Heavy Sans".to_string(), "bold".to_string());
    assert_eq!(r.resolve("Heavy Sans").map(|s| s.as_str()), Some("bold"));
    assert_eq!(r.resolve("heavysans").map(|s| s.as_str()), Some("bold"));
    assert!(r.is_empty());
}

#[test]
fn buffer_resolver_iterates_in_name_order() {
    let r = BufferFontResolver::from_entries(vec![
        ("Noto Sans".to_string(), 2u32),
        ("Arial".to_string(), 1u32),
        ("Noto Sans".to_string(), 3u32),
    ]);
    let items: Vec<(String, u32)> = r.iter().into_iter().map(|(k, v)| (k.clone(), *v)).collect();
    assert_eq!(items, vec![("Arial".to_string(), 1), ("Noto Sans".to_string(), 3)]);
}

// -- lookup orders --------------------------------------------------------

#[test]
fn mapped_resolver_consults_inner_with_original_first() {
    let mapping = default_font_mapping();
    let calls = mapped_candidates("Calibri", &mapping);
    assert_eq!(calls.first().map(String::as_str), Some("Calibri"));
    assert_eq!(calls.get(1).map(String::as_str), Some("Carlito"));
}

#[test]
fn mapped_resolver_skips_mapping_lookup_when_inner_hit() {
    let mapping = FontMapping::new();
    let calls = mapped_candidates("Some Custom Font", &mapping);
    assert_eq!(calls, vec!["Some Custom Font".to_string()]);
}

#[test]
fn cjk_fallback_walks_chain_on_miss() {
    let calls = cjk_candidates(CjkPlatform::MacOs, "Noto Sans JP");
    assert_eq!(calls.first().map(String::as_str), Some("Noto Sans JP"));
    assert!(calls.contains(&"Hiragino Sans".to_string()));
    assert!(calls.contains(&"Hiragino Kaku Gothic ProN".to_string()));
}

#[test]
fn cjk_fallback_walks_unified_chain_for_other_platform() {
    let calls = cjk_candidates(CjkPlatform::Other, "Noto Sans JP");
    assert_eq!(calls.first().map(String::as_str), Some("Noto Sans JP"));
    assert!(calls.contains(&"Yu Gothic".to_string()));
    assert!(calls.contains(&"Hiragino Sans".to_string()));
}

#[test]
fn cjk_fallback_empty_for_unknown_name() {
    let calls = cjk_candidates(CjkPlatform::Linux, "UnknownFont");
    assert_eq!(calls, vec!["UnknownFont".to_string()]);
}

#[test]
fn standard_chain_maps_each_candidate() {
    let mapping = default_font_mapping();
    let calls = standard_chain_candidates("Calibri", &mapping, CjkPlatform::Linux);
    assert_eq!(calls, vec!["Calibri".to_string(), "Carlito".to_string()]);
    let empty = FontMapping::new();
    let calls = standard_chain_candidates("UnknownFont", &empty, CjkPlatform::Linux);
    assert_eq!(calls, vec!["UnknownFont".to_string()]);
}

#[test]
fn standard_resolver_chain_exposes_variant_resolver_trait() {
    let buffers: BufferFontResolver<String> = BufferFontResolver::default();
    let calls = standard_chain_candidates("Calibri", &FontMapping::new(), CjkPlatform::Linux);
    assert!(first_some(&calls, &|n: &String| buffers.resolve(n)).is_none());
    assert!(first_some(&calls, &|n: &String| buffers.resolve_variant(n, BOLD)).is_none());
}

#[test]
fn chain_resolver_empty_returns_none() {
    let resolvers: Vec<BufferFontResolver<String>> = Vec::new();
    assert!(first_some(&resolvers, &|r: &BufferFontResolver<String>| r.resolve("anything").cloned()).is_none());
}

#[test]
fn chain_resolver_consults_in_order() {
    let mut second = BufferFontResolver::new();
    second.insert("Arial".to_string(), "second".to_string());
    let mut third = BufferFontResolver::new();
    third.insert("Arial".to_string(), "third".to_string());
    let resolvers = vec![BufferFontResolver::new(), second, third];
    let hit = first_some(&resolvers, &|r: &BufferFontResolver<String>| r.resolve("Arial").cloned());
    assert_eq!(hit.as_deref(), Some("second"));
    assert!(first_some(&resolvers, &|r: &BufferFontResolver<String>| r.resolve("anything").cloned()).is_none());
}

#[test]
fn first_candidate_with_a_face_wins() {
    let mut buffers = BufferFontResolver::new();
    buffers.insert("Carlito".to_string(), "carlito-face".to_string());
    let mapping = default_font_mapping();
    let calls = standard_chain_candidates("Calibri", &mapping, CjkPlatform::Windows);
    let hit = first_some(&calls, &|n: &String| buffers.resolve(n));
    assert_eq!(hit.map(|s| s.as_str()), Some("carlito-face"));
}

#[test]
fn measurer_chain_walks_fallbacks_of_the_name_then_of_its_mapping() {
    let mapping = default_font_mapping();
    let calls = measurer_candidates("Calibri", &mapping, CjkPlatform::Linux);
    assert_eq!(calls, vec!["Calibri".to_string(), "Carlito".to_string()]);
    let calls = measurer_candidates("Noto Sans JP", &FontMapping::new(), CjkPlatform::MacOs);
    assert_eq!(calls, cjk_candidates(CjkPlatform::MacOs, "Noto Sans JP"));
}

#[test]
fn supplied_face_registration() {
    assert_eq!(face_registration(Some("Custom"), Some("Family".to_string()), 400), Some(("Custom".to_string(), false)));
    assert_eq!(face_registration(Some(""), Some("Family".to_string()), 700), Some(("Family".to_string(), true)));
    assert_eq!(face_registration(None, Some("Family".to_string()), 600), Some(("Family".to_string(), true)));
    assert_eq!(face_registration(None, Some("Family".to_string()), 599), Some(("Family".to_string(), false)));
    assert_eq!(face_registration(None, None, 400), None);
    assert_eq!(face_registration(Some(""), None, 400), None);
}
