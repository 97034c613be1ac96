use slideglance::mapping::{
    ascii_lowercase, create_font_mapping, default_font_mapping, get_mapped_font, normalize_full_width, FontMapping,
    DEFAULT_FONT_MAPPING,
};

fn assert_maps_to(name: &str, expected: &str) {
    let m = default_font_mapping();
    assert_eq!(
        m.get(name).map(String::as_str),
        Some(expected),
        "{name} should map to {expected}"
    );
}

// -- Latin (Microsoft Core → Google Crosextra) ----------------------------

#[test]
fn latin_metric_clones() {
    assert_maps_to("Calibri", "Carlito");
    assert_maps_to("Calibri Light", "Carlito");
    assert_maps_to("Arial", "Arimo");
    assert_maps_to("Helvetica", "Arimo");
    assert_maps_to("Times", "Tinos");
    assert_maps_to("Times New Roman", "Tinos");
    assert_maps_to("Courier", "Cousine");
    assert_maps_to("Courier New", "Cousine");
    assert_maps_to("Cambria", "Caladea");
}

#[test]
fn latin_unmapped_fonts_return_none() {
    let m = default_font_mapping();
    // No Crosextra metric-clone exists — leave unmapped so the
    // resolver chains to system / Google fallback.
    for unmapped in ["Tahoma", "Verdana", "Georgia", "Consolas", "Trebuchet MS"] {
        assert!(!m.contains_key(unmapped), "{unmapped} should NOT be mapped");
    }
}

// -- Japanese sans-serif → Noto Sans JP -----------------------------------

#[test]
fn japanese_gothic_microsoft() {
    for name in [
        "MS Gothic",
        "MS ゴシック",
        "MS PGothic",
        "MS Pゴシック",
        "MS UI Gothic",
        "Meiryo",
        "Meiryo UI",
        "メイリオ",
        "Yu Gothic",
        "Yu Gothic UI",
        "游ゴシック",
    ] {
        assert_maps_to(name, "Noto Sans JP");
    }
}

#[test]
fn japanese_gothic_apple() {
    for name in [
        "Hiragino Sans",
        "Hiragino Kaku Gothic Pro",
        "Hiragino Kaku Gothic ProN",
        "Hiragino Maru Gothic ProN",
        "ヒラギノ角ゴ ProN",
    ] {
        assert_maps_to(name, "Noto Sans JP");
    }
}

#[test]
fn japanese_gothic_source_han_and_community() {
    for name in [
        "Source Han Sans",
        "Source Han Sans JP",
        "Source Han Sans Japanese",
        "源ノ角ゴシック",
        "IPAGothic",
        "M PLUS 1p",
        "Pretendard JP",
    ] {
        assert_maps_to(name, "Noto Sans JP");
    }
}

// -- Japanese serif → Noto Serif JP ---------------------------------------

#[test]
fn japanese_mincho_microsoft() {
    for name in [
        "MS Mincho",
        "MS 明朝",
        "MS PMincho",
        "MS P明朝",
        "Yu Mincho",
        "游明朝",
    ] {
        assert_maps_to(name, "Noto Serif JP");
    }
}

#[test]
fn japanese_mincho_apple_and_source_han() {
    for name in [
        "Hiragino Mincho Pro",
        "Hiragino Mincho ProN",
        "ヒラギノ明朝 ProN",
        "Source Han Serif",
        "Source Han Serif JP",
        "Source Han Serif Japanese",
        "源ノ明朝",
        "IPAMincho",
    ] {
        assert_maps_to(name, "Noto Serif JP");
    }
}

// -- Korean sans-serif → Noto Sans KR -------------------------------------

#[test]
fn korean_gothic_microsoft_and_apple() {
    for name in [
        "Malgun Gothic",
        "맑은 고딕",
        "맑은고딕",
        "Apple SD Gothic Neo",
        "AppleGothic",
        "애플고딕",
    ] {
        assert_maps_to(name, "Noto Sans KR");
    }
}

#[test]
fn korean_gothic_legacy_system() {
    for name in [
        "Dotum",
        "DotumChe",
        "돋움",
        "돋움체",
        "Gulim",
        "GulimChe",
        "굴림",
        "굴림체",
    ] {
        assert_maps_to(name, "Noto Sans KR");
    }
}

#[test]
fn korean_gothic_nanum_and_community() {
    for name in [
        "NanumGothic",
        "나눔고딕",
        "NanumBarunGothic",
        "NanumSquare",
        "Pretendard",
        "Pretendard Variable",
        "Spoqa Han Sans",
        "Spoqa Han Sans Neo",
        "본고딕",
        "Source Han Sans K",
        "Source Han Sans Korean",
        "함초롬돋움",
        "KoPubDotum",
    ] {
        assert_maps_to(name, "Noto Sans KR");
    }
}

#[test]
fn korean_gothic_hanyang() {
    for name in [
        "HY견고딕",
        "HYGothic",
        "HY중고딕",
        "HY헤드라인M",
        "HYHeadLineM",
        "HY그래픽M",
    ] {
        assert_maps_to(name, "Noto Sans KR");
    }
}

// -- Korean serif → Noto Serif KR -----------------------------------------

#[test]
fn korean_serif_system_and_apple() {
    for name in [
        "Batang",
        "BatangChe",
        "바탕",
        "Gungsuh",
        "궁서",
        "AppleMyungjo",
        "애플명조",
    ] {
        assert_maps_to(name, "Noto Serif KR");
    }
}

#[test]
fn korean_serif_nanum_and_community() {
    for name in [
        "NanumMyeongjo",
        "나눔명조",
        "본명조",
        "Source Han Serif K",
        "Source Han Serif Korean",
        "함초롬바탕",
        "KoPubBatang",
    ] {
        assert_maps_to(name, "Noto Serif KR");
    }
}

#[test]
fn korean_serif_hanyang() {
    for name in ["HY견명조", "HYMyeongJo", "HY신명조", "HY궁서"] {
        assert_maps_to(name, "Noto Serif KR");
    }
}

// -- Simplified Chinese sans-serif → Noto Sans SC -------------------------

#[test]
fn simplified_chinese_gothic_microsoft() {
    for name in [
        "Microsoft YaHei",
        "Microsoft YaHei UI",
        "微软雅黑",
        "SimHei",
        "黑体",
        "DengXian",
        "等线",
    ] {
        assert_maps_to(name, "Noto Sans SC");
    }
}

#[test]
fn simplified_chinese_gothic_apple_founder_source_han() {
    for name in [
        "PingFang SC",
        "苹方-简",
        "Heiti SC",
        "STHeiti",
        "华文黑体",
        "FZHei-B01",
        "方正黑体",
        "Source Han Sans SC",
        "Source Han Sans CN",
        "思源黑体",
    ] {
        assert_maps_to(name, "Noto Sans SC");
    }
}

// -- Simplified Chinese serif → Noto Serif SC -----------------------------

#[test]
fn simplified_chinese_serif_microsoft() {
    for name in [
        "SimSun",
        "宋体",
        "NSimSun",
        "新宋体",
        "FangSong",
        "仿宋",
        "KaiTi",
        "楷体",
    ] {
        assert_maps_to(name, "Noto Serif SC");
    }
}

#[test]
fn simplified_chinese_serif_apple_source_han() {
    for name in [
        "Songti SC",
        "STSong",
        "华文宋体",
        "Source Han Serif SC",
        "Source Han Serif CN",
        "思源宋体",
        "方正书宋",
    ] {
        assert_maps_to(name, "Noto Serif SC");
    }
}

// -- Traditional Chinese sans-serif → Noto Sans TC ------------------------

#[test]
fn traditional_chinese_gothic() {
    for name in [
        "Microsoft JhengHei",
        "Microsoft JhengHei UI",
        "微軟正黑體",
        "PingFang TC",
        "PingFang HK",
        "苹方-繁",
        "Heiti TC",
        "Source Han Sans TC",
        "Source Han Sans TW",
        "Source Han Sans HK",
        "思源黑體",
    ] {
        assert_maps_to(name, "Noto Sans TC");
    }
}

// -- Traditional Chinese serif → Noto Serif TC ----------------------------

#[test]
fn traditional_chinese_serif() {
    for name in [
        "PMingLiU",
        "新細明體",
        "MingLiU",
        "細明體",
        "DFKai-SB",
        "標楷體",
        "Songti TC",
        "LiSong Pro",
        "BiauKai",
        "Source Han Serif TC",
        "Source Han Serif TW",
        "Source Han Serif HK",
        "思源宋體",
    ] {
        assert_maps_to(name, "Noto Serif TC");
    }
}

// -- Pan-CJK alias normalization ------------------------------------------

#[test]
fn pan_cjk_aliases_collapse_to_standalone() {
    assert_maps_to("Noto Sans CJK JP", "Noto Sans JP");
    assert_maps_to("Noto Serif CJK JP", "Noto Serif JP");
    assert_maps_to("Noto Sans CJK KR", "Noto Sans KR");
    assert_maps_to("Noto Serif CJK KR", "Noto Serif KR");
    assert_maps_to("Noto Sans CJK SC", "Noto Sans SC");
    assert_maps_to("Noto Serif CJK SC", "Noto Serif SC");
    assert_maps_to("Noto Sans CJK TC", "Noto Sans TC");
    assert_maps_to("Noto Serif CJK TC", "Noto Serif TC");
    // HK collapses to TC.
    assert_maps_to("Noto Sans CJK HK", "Noto Sans TC");
    assert_maps_to("Noto Serif CJK HK", "Noto Serif TC");
}

// -- CJK Script Equality structural check ---------------------------------

#[test]
fn cjk_script_equality_all_eight_cells_present() {
    // Every (script × style) cell has at least one entry whose
    // value is the corresponding Noto target. This is the
    // structural assertion behind the "CJK Script Equality" rule:
    // no script gets dropped at the mapping layer.
    let m = default_font_mapping();
    let cells: &[(&str, &str)] = &[
        ("Yu Gothic", "Noto Sans JP"),
        ("Yu Mincho", "Noto Serif JP"),
        ("Malgun Gothic", "Noto Sans KR"),
        ("Batang", "Noto Serif KR"),
        ("Microsoft YaHei", "Noto Sans SC"),
        ("SimSun", "Noto Serif SC"),
        ("Microsoft JhengHei", "Noto Sans TC"),
        ("PMingLiU", "Noto Serif TC"),
    ];
    for (sample_key, expected) in cells {
        assert_eq!(
            m.get(*sample_key).map(String::as_str),
            Some(*expected),
            "missing CJK cell coverage for {sample_key} → {expected}"
        );
    }
}

// -- create_font_mapping --------------------------------------------------

#[test]
fn create_font_mapping_with_no_user_returns_default_copy() {
    let m = create_font_mapping(None);
    assert_eq!(m.get("Calibri").map(String::as_str), Some("Carlito"));
    assert_eq!(m.get("Arial").map(String::as_str), Some("Arimo"));
}

#[test]
fn create_font_mapping_user_overrides_default() {
    let user = vec![("Calibri".to_string(), "Custom Font".to_string())];
    let m = create_font_mapping(Some(user));
    assert_eq!(m.get("Calibri").map(String::as_str), Some("Custom Font"));
    assert_eq!(m.get("Arial").map(String::as_str), Some("Arimo"));
}

#[test]
fn create_font_mapping_user_can_add_new_entries() {
    let user = vec![("My Custom Font".to_string(), "Noto Sans".to_string())];
    let m = create_font_mapping(Some(user));
    assert_eq!(
        m.get("My Custom Font").map(String::as_str),
        Some("Noto Sans")
    );
    assert_eq!(m.get("Calibri").map(String::as_str), Some("Carlito"));
}

// -- get_mapped_font lookup semantics -------------------------------------

#[test]
fn get_mapped_font_exact_match() {
    let m = FontMapping::from_pairs(vec![
        ("Calibri".to_string(), "Carlito".to_string()),
        ("MS Gothic".to_string(), "Noto Sans JP".to_string()),
    ]);
    assert_eq!(get_mapped_font("Calibri", &m), Some("Carlito".to_string()));
}

#[test]
fn get_mapped_font_case_insensitive() {
    let m = FontMapping::from_pairs(vec![("Calibri".to_string(), "Carlito".to_string())]);
    assert_eq!(get_mapped_font("calibri", &m), Some("Carlito".to_string()));
    assert_eq!(get_mapped_font("CALIBRI", &m), Some("Carlito".to_string()));
}

#[test]
fn get_mapped_font_unknown_returns_none() {
    let m = FontMapping::from_pairs(vec![("Calibri".to_string(), "Carlito".to_string())]);
    assert_eq!(get_mapped_font("Unknown Font", &m), None);
}

#[test]
fn get_mapped_font_empty_returns_none() {
    let m = default_font_mapping();
    assert_eq!(get_mapped_font("", &m), None);
}

#[test]
fn get_mapped_font_full_width_normalization() {
    let m = default_font_mapping();
    // ＭＳ Ｐゴシック (full-width 'P') → MS Pゴシック.
    assert_eq!(
        get_mapped_font("ＭＳ Ｐゴシック", &m),
        Some("Noto Sans JP".to_string())
    );
    // ＭＳ Ｐ明朝 (full-width 'P') → MS P明朝 → Noto Serif JP
    // (the JP-specific standalone, not the TS-quirk pan-CJK).
    assert_eq!(
        get_mapped_font("ＭＳ Ｐ明朝", &m),
        Some("Noto Serif JP".to_string())
    );
    // Ideographic space U+3000 → ASCII space.
    assert_eq!(
        get_mapped_font("ＭＳ\u{3000}Ｐゴシック", &m),
        Some("Noto Sans JP".to_string())
    );
}

#[test]
fn normalize_full_width_basic() {
    assert_eq!(normalize_full_width("ＡＢＣ"), "ABC");
    assert_eq!(normalize_full_width("Ｐ"), "P");
    assert_eq!(normalize_full_width("\u{3000}"), " ");
    assert_eq!(normalize_full_width("メイリオ"), "メイリオ");
    assert_eq!(normalize_full_width("ABC"), "ABC");
}

// -- Single source of truth ----------------------------------------------

#[test]
fn default_table_has_no_duplicate_keys() {
    // BTreeMap dedups silently — verify the const's list itself
    // has no duplicate keys, which would indicate an editing
    // mistake (later entry silently overrides earlier).
    let mut seen = std::collections::HashSet::new();
    for (k, _) in DEFAULT_FONT_MAPPING.iter() {
        assert!(seen.insert(*k), "duplicate key in const: {k}");
    }
}

#[test]
fn default_table_runtime_matches_const_size() {
    // Sanity: BTreeMap has the same number of entries as the const
    // (since we just verified no dup keys, runtime size must match).
    assert_eq!(default_font_mapping().len(), DEFAULT_FONT_MAPPING.len());
}

// -- own tests --------------------------------------------------------------

#[test]
fn ascii_lowercase_folds_only_ascii_capitals() {
    assert_eq!(ascii_lowercase("MS Ｐゴシック ABC"), "ms Ｐゴシック abc");
}

#[test]
fn normalization_is_idempotent() {
    for s in ["ＭＳ Ｐゴシック", "\u{3000}x", "plain"] {
        let once = normalize_full_width(s);
        assert_eq!(normalize_full_width(&once), once);
    }
}

#[test]
fn full_width_lowercase_scan_matches_key() {
    // no exact or normalized key: falls through to the folded scan
    let m = default_font_mapping();
    assert_eq!(get_mapped_font("ｃａｌｉｂｒｉ", &m), Some("Carlito".to_string()));
    assert_eq!(get_mapped_font("tImEs NeW rOmAn", &m), Some("Tinos".to_string()));
}

#[test]
fn folded_scan_takes_least_key() {
    let m = FontMapping::from_pairs(vec![
        ("abc".to_string(), "lower".to_string()),
        ("ABC".to_string(), "upper".to_string()),
    ]);
    // exact matches win
    assert_eq!(get_mapped_font("abc", &m), Some("lower".to_string()));
    assert_eq!(get_mapped_font("ABC", &m), Some("upper".to_string()));
    // "ABC" sorts before "abc", so the scan finds it first
    assert_eq!(get_mapped_font("aBc", &m), Some("upper".to_string()));
}

#[test]
fn user_entries_apply_in_order() {
    let user = vec![
        ("X".to_string(), "first".to_string()),
        ("X".to_string(), "second".to_string()),
    ];
    let m = create_font_mapping(Some(user));
    assert_eq!(m.get("X").map(String::as_str), Some("second"));
    assert_eq!(m.len(), default_font_mapping().len() + 1);
}

#[test]
fn mapping_entries_iterate_in_key_order() {
    let m = FontMapping::from_pairs(vec![
        ("b".to_string(), "2".to_string()),
        ("a".to_string(), "1".to_string()),
        ("c".to_string(), "3".to_string()),
    ]);
    let keys: Vec<&str> = (0..m.len()).map(|i| m.entry_at(i).0.as_str()).collect();
    assert_eq!(keys, vec!["a", "b", "c"]);
    assert!(m.contains_key("a"));
    assert!(!m.contains_key("d"));
}
