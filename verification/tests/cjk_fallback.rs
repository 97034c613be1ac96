use slideglance::cjk_fallback::{get_cjk_fallback_fonts, CjkPlatform};


// -- Unified chain: Windows-native first, then macOS, then Linux -------

#[test]
fn unified_japanese_sans_starts_with_yu_gothic() {
    let chain = get_cjk_fallback_fonts(CjkPlatform::MacOs, "Noto Sans JP");
    assert_eq!(chain.first(), Some(&"Yu Gothic"));
    assert!(chain.contains(&"Hiragino Sans"));
    assert!(chain.contains(&"Source Han Sans JP"));
    assert!(chain.contains(&"Noto Sans CJK JP"));
}

#[test]
fn unified_japanese_mincho_starts_with_yu_mincho() {
    let chain = get_cjk_fallback_fonts(CjkPlatform::MacOs, "Noto Serif JP");
    assert_eq!(chain.first(), Some(&"Yu Mincho"));
    assert!(chain.contains(&"Hiragino Mincho ProN"));
    assert!(chain.contains(&"Source Han Serif JP"));
}

#[test]
fn unified_korean_sans_contains_native_for_every_platform() {
    let chain = get_cjk_fallback_fonts(CjkPlatform::MacOs, "Noto Sans KR");
    assert_eq!(chain.first(), Some(&"Pretendard"));
    assert!(chain.contains(&"Apple SD Gothic Neo"));
    assert!(chain.contains(&"NanumGothic"));
}

#[test]
fn unified_korean_serif_contains_native_for_every_platform() {
    let chain = get_cjk_fallback_fonts(CjkPlatform::MacOs, "Noto Serif KR");
    assert_eq!(chain.first(), Some(&"Batang"));
    assert!(chain.contains(&"AppleMyungjo"));
    assert!(chain.contains(&"Source Han Serif KR"));
}

#[test]
fn unified_korean_pptx_authored_includes_malgun_and_apple() {
    // PPTX-authored "맑은 고딕" — must include both Windows-native
    // (Malgun Gothic, the original PPT font) and macOS-native
    // (Apple SD Gothic Neo) so the deck renders identically on
    // either host. Office on macOS also installs Malgun Gothic, in
    // which case the WebView prefers it and matches PowerPoint.
    let chain = get_cjk_fallback_fonts(CjkPlatform::MacOs, "맑은 고딕");
    assert!(chain.contains(&"Malgun Gothic"));
    assert!(chain.contains(&"Apple SD Gothic Neo"));
}

#[test]
fn unified_chinese_simplified_starts_with_microsoft_yahei() {
    let chain = get_cjk_fallback_fonts(CjkPlatform::MacOs, "Noto Sans SC");
    assert_eq!(chain.first(), Some(&"Microsoft YaHei"));
    assert!(chain.contains(&"PingFang SC"));
    assert!(chain.contains(&"Source Han Sans SC"));
}

#[test]
fn unified_chinese_traditional_starts_with_microsoft_jhenghei() {
    let chain = get_cjk_fallback_fonts(CjkPlatform::MacOs, "Noto Sans TC");
    assert_eq!(chain.first(), Some(&"Microsoft JhengHei"));
    assert!(chain.contains(&"PingFang TC"));
    assert!(chain.contains(&"Source Han Sans TC"));
}

#[test]
fn unified_chain_is_deduplicated() {
    // `Apple SD Gothic Neo` appears in BOTH the macOS chain (as a
    // direct preinstalled fallback) and the Linux community OSS
    // section (via the cross-OS Pretendard / NanumGothic chain).
    // The unifier dedups so each name appears at most once.
    let chain = get_cjk_fallback_fonts(CjkPlatform::MacOs, "Noto Sans KR");
    let occurrences = chain
        .iter()
        .filter(|f| **f == "Apple SD Gothic Neo")
        .count();
    assert_eq!(occurrences, 1, "duplicate entries leak through unifier");
}

#[test]
fn unified_chain_ignores_platform_argument() {
    for (a, b) in [
        (CjkPlatform::MacOs, CjkPlatform::Windows),
        (CjkPlatform::MacOs, CjkPlatform::Linux),
        (CjkPlatform::Windows, CjkPlatform::Linux),
        (CjkPlatform::MacOs, CjkPlatform::Other),
    ] {
        assert_eq!(
            get_cjk_fallback_fonts(a, "Noto Sans JP"),
            get_cjk_fallback_fonts(b, "Noto Sans JP"),
        );
    }
}

// -- Common edge cases --------------------------------------------------

#[test]
fn unknown_mapping_returns_empty() {
    assert!(
        get_cjk_fallback_fonts(CjkPlatform::MacOs, "Unknown Font").is_empty(),
        "no entries should match an unknown family name"
    );
}

#[test]
fn other_platform_still_returns_unified_chain() {
    // `CjkPlatform::Other` no longer short-circuits to empty —
    // the unifier ignores `platform` entirely.
    let chain = get_cjk_fallback_fonts(CjkPlatform::Other, "Noto Sans JP");
    assert!(!chain.is_empty());
    assert!(chain.contains(&"Yu Gothic"));
}

// -- CJK Script Equality structural assertion --------------------------

#[test]
fn cjk_equality_every_platform_covers_every_script() {
    // Each platform must have at least one entry for each of the
    // four CJK scripts × two styles = 8 cells. This is the
    // structural guarantee of the project's CJK Script Equality
    // rule applied to the fallback chain.
    for platform in [CjkPlatform::MacOs, CjkPlatform::Windows, CjkPlatform::Linux] {
        for cell in [
            "Noto Sans JP",
            "Noto Serif JP",
            "Noto Sans KR",
            "Noto Serif KR",
            "Noto Sans SC",
            "Noto Serif SC",
            "Noto Sans TC",
            "Noto Serif TC",
        ] {
            assert!(
                !get_cjk_fallback_fonts(platform, cell).is_empty(),
                "{platform:?} / {cell} chain is empty",
            );
        }
    }
}

// -- CjkPlatform::current resolves a non-panicking value ------------------


// -- own tests --------------------------------------------------------------

#[test]
fn unified_chain_windows_section_comes_first() {
    let chain = get_cjk_fallback_fonts(CjkPlatform::Linux, "Yu Gothic");
    assert_eq!(
        &chain[..4],
        &["Yu Gothic UI", "Yu Gothic Medium", "Meiryo", "MS Gothic"]
    );
    assert!(chain.contains(&"Hiragino Sans"));
    assert!(chain.contains(&"IPAGothic"));
}

#[test]
fn unified_chain_has_no_duplicates_for_every_cell() {
    for cell in [
        "Noto Sans JP",
        "Noto Serif JP",
        "Noto Sans KR",
        "Noto Serif KR",
        "Noto Sans SC",
        "Noto Serif SC",
        "Noto Sans TC",
        "Noto Serif TC",
    ] {
        let chain = get_cjk_fallback_fonts(CjkPlatform::Other, cell);
        for (i, a) in chain.iter().enumerate() {
            for b in &chain[i + 1..] {
                assert_ne!(a, b, "{cell}");
            }
        }
    }
}

#[test]
fn lookup_is_case_sensitive() {
    assert!(get_cjk_fallback_fonts(CjkPlatform::Windows, "noto sans jp").is_empty());
}
