use slideglance::fallback_metrics::{
    char_width, get_font_metrics, get_metrics_fallback_font, resolve_metrics, width_class, CharWidth,
    WidthClass,
};
use slideglance::mapping::{default_font_mapping, get_mapped_font};


// -- get_font_metrics: PPTX names route through mapping ------------------

#[test]
fn calibri_resolves_to_carlito_metrics() {
    let m = get_font_metrics("Calibri").expect("Calibri must resolve");
    assert_eq!(m.units_per_em, 2048);
    assert_eq!(m.width_of('A'), Some(1185));
    assert_eq!(m.fallback_name, "Carlito");
}

#[test]
fn arial_resolves_to_arimo_metrics() {
    let m = get_font_metrics("Arial").expect("Arial must resolve");
    assert_eq!(m.units_per_em, 2048);
    assert_eq!(m.width_of('A'), Some(1366));
    assert_eq!(m.fallback_name, "Arimo");
}

#[test]
fn helvetica_resolves_to_arimo_metrics() {
    let m = get_font_metrics("Helvetica").expect("Helvetica must resolve");
    assert_eq!(m.width_of('A'), Some(1366));
    assert_eq!(m.fallback_name, "Arimo");
}

#[test]
fn times_new_roman_resolves_to_tinos_metrics() {
    let m = get_font_metrics("Times New Roman").expect("must resolve");
    assert_eq!(m.width_of('A'), Some(1479));
    assert_eq!(m.fallback_name, "Tinos");
}

#[test]
fn meiryo_resolves_to_noto_sans_jp() {
    let m = get_font_metrics("Meiryo").expect("Meiryo must resolve");
    assert_eq!(m.units_per_em, 1000);
    assert_eq!(m.cjk_width, 1000);
    assert_eq!(m.fallback_name, "Noto Sans JP");
}

#[test]
fn yu_gothic_resolves_to_noto_sans_jp() {
    let m = get_font_metrics("Yu Gothic").expect("Yu Gothic must resolve");
    assert_eq!(m.units_per_em, 1000);
    assert_eq!(m.fallback_name, "Noto Sans JP");
}

#[test]
fn yu_mincho_resolves_to_noto_serif_jp() {
    let m = get_font_metrics("Yu Mincho").expect("Yu Mincho must resolve");
    assert_eq!(m.fallback_name, "Noto Serif JP");
    assert_eq!(m.cjk_width, 1000);
}

// -- CJK Script Equality: KR / SC / TC sans+serif all resolve ------------

#[test]
fn malgun_gothic_resolves_to_noto_sans_kr() {
    let m = get_font_metrics("Malgun Gothic").expect("Malgun Gothic must resolve");
    assert_eq!(m.fallback_name, "Noto Sans KR");
    assert_eq!(m.cjk_width, 1000);
}

#[test]
fn batang_resolves_to_noto_serif_kr() {
    let m = get_font_metrics("Batang").expect("Batang must resolve");
    assert_eq!(m.fallback_name, "Noto Serif KR");
}

#[test]
fn microsoft_yahei_resolves_to_noto_sans_sc() {
    let m = get_font_metrics("Microsoft YaHei").expect("Microsoft YaHei must resolve");
    assert_eq!(m.fallback_name, "Noto Sans SC");
    assert_eq!(m.cjk_width, 1000);
}

#[test]
fn simsun_resolves_to_noto_serif_sc() {
    let m = get_font_metrics("SimSun").expect("SimSun must resolve");
    assert_eq!(m.fallback_name, "Noto Serif SC");
}

#[test]
fn microsoft_jhenghei_resolves_to_noto_sans_tc() {
    let m = get_font_metrics("Microsoft JhengHei").expect("Microsoft JhengHei must resolve");
    assert_eq!(m.fallback_name, "Noto Sans TC");
}

#[test]
fn pmingliu_resolves_to_noto_serif_tc() {
    let m = get_font_metrics("PMingLiU").expect("PMingLiU must resolve");
    assert_eq!(m.fallback_name, "Noto Serif TC");
}

#[test]
fn cjk_script_equality_all_eight_cells_resolve() {
    // Every (script × style) cell of mapping.rs has a metric
    // entry. Sample one representative key per cell.
    let cells: &[(&str, &str)] = &[
        ("Yu Gothic", "Noto Sans JP"),
        ("Yu Mincho", "Noto Serif JP"),
        ("Malgun Gothic", "Noto Sans KR"),
        ("Batang", "Noto Serif KR"),
        ("Microsoft YaHei", "Noto Sans SC"),
        ("SimSun", "Noto Serif SC"),
        ("Microsoft JhengHei", "Noto Sans TC"),
        ("PMingLiU", "Noto Serif TC"),
    ];
    for (key, expected_target) in cells {
        let m = get_font_metrics(key)
            .unwrap_or_else(|| panic!("{key} must resolve to {expected_target}"));
        assert_eq!(m.fallback_name, *expected_target);
    }
}

// -- Direct OSS-name lookup (skipping the mapping) -----------------------

#[test]
fn direct_oss_name_lookup() {
    // Callers that already resolved through mapping.rs can pass
    // the OSS family name directly.
    for oss in [
        "Carlito",
        "Arimo",
        "Tinos",
        "Cousine",
        "Caladea",
        "Noto Sans JP",
        "Noto Serif JP",
        "Noto Sans KR",
        "Noto Serif KR",
        "Noto Sans SC",
        "Noto Serif SC",
        "Noto Sans TC",
        "Noto Serif TC",
    ] {
        let m = get_font_metrics(oss).unwrap_or_else(|| panic!("OSS name {oss}"));
        assert_eq!(m.fallback_name, oss);
    }
}

// -- Lookup edge cases ---------------------------------------------------

#[test]
fn case_insensitive_for_latin() {
    // mapping.rs handles case folding for Latin entries.
    let upper = get_font_metrics("Calibri").expect("Calibri");
    let lower = get_font_metrics("calibri").expect("calibri");
    assert_eq!(upper.width_of('A'), lower.width_of('A'));
}

#[test]
fn unknown_font_returns_none() {
    assert!(get_font_metrics("NonExistentFont").is_none());
}

#[test]
fn empty_returns_none() {
    assert!(get_font_metrics("").is_none());
}

#[test]
fn courier_resolves_to_cousine_metrics() {
    let m = get_font_metrics("Courier New").expect("Courier New must resolve");
    assert_eq!(m.fallback_name, "Cousine");
    assert_eq!(m.units_per_em, 2048);
    assert_eq!(m.cjk_width, 2048);
}

#[test]
fn cambria_resolves_to_caladea_metrics() {
    let m = get_font_metrics("Cambria").expect("Cambria must resolve");
    assert_eq!(m.fallback_name, "Caladea");
    assert_eq!(m.units_per_em, 2048);
}

#[test]
fn cousine_caladea_have_empty_widths_table() {
    // Monospace + scalar-only entries: per-character maps stay
    // empty; ASCII glyphs measure via default_width and CJK via
    // cjk_width.
    for name in ["Cousine", "Caladea"] {
        let m = get_font_metrics(name).unwrap_or_else(|| panic!("{name}"));
        assert_eq!(m.widths_len(), 0, "{name} should have empty widths table");
    }
}

#[test]
fn ascender_positive_descender_negative_each_font() {
    for name in [
        "Calibri",
        "Arial",
        "Times New Roman",
        "Meiryo",
        "Yu Mincho",
        "Malgun Gothic",
        "Batang",
        "Microsoft YaHei",
        "SimSun",
        "Microsoft JhengHei",
        "PMingLiU",
    ] {
        let m = get_font_metrics(name).unwrap_or_else(|| panic!("{name}"));
        assert!(m.ascender > 0, "{name} ascender");
        assert!(m.descender < 0, "{name} descender");
    }
}

// -- get_metrics_fallback_font (matches mapping.rs target) --------------

#[test]
fn fallback_font_matches_mapping_target() {
    // Invariant: get_metrics_fallback_font(name) ==
    // get_mapped_font(name, default_mapping) for every name with
    // both a mapping and a metric entry.
    let mapping = default_font_mapping();
    for name in [
        "Calibri",
        "Arial",
        "Helvetica",
        "Times New Roman",
        "Meiryo",
        "Yu Gothic",
        "Yu Mincho",
        "Malgun Gothic",
        "맑은 고딕",
        "Batang",
        "Microsoft YaHei",
        "SimSun",
        "Microsoft JhengHei",
        "PMingLiU",
    ] {
        let metric_name =
            get_metrics_fallback_font(name).unwrap_or_else(|| panic!("metrics for {name}"));
        let mapping_target =
            get_mapped_font(name, &mapping).unwrap_or_else(|| panic!("mapping for {name}"));
        assert_eq!(
            metric_name, mapping_target,
            "fallback_name / mapping target diverged for {name}"
        );
    }
}

#[test]
fn fallback_font_calibri_to_carlito() {
    assert_eq!(get_metrics_fallback_font("Calibri"), Some("Carlito"));
}

#[test]
fn fallback_font_arial_to_arimo() {
    assert_eq!(get_metrics_fallback_font("Arial"), Some("Arimo"));
}

#[test]
fn fallback_font_times_to_tinos() {
    assert_eq!(get_metrics_fallback_font("Times New Roman"), Some("Tinos"));
}

#[test]
fn fallback_font_japanese_to_noto_sans_jp() {
    assert_eq!(get_metrics_fallback_font("Meiryo"), Some("Noto Sans JP"));
    assert_eq!(get_metrics_fallback_font("Yu Gothic"), Some("Noto Sans JP"));
    assert_eq!(
        get_metrics_fallback_font("Noto Sans JP"),
        Some("Noto Sans JP")
    );
}

#[test]
fn fallback_font_case_insensitive_latin() {
    assert_eq!(get_metrics_fallback_font("calibri"), Some("Carlito"));
}

#[test]
fn fallback_font_unknown_none() {
    assert_eq!(get_metrics_fallback_font("NonExistentFont"), None);
}

#[test]
fn fallback_font_empty_none() {
    assert_eq!(get_metrics_fallback_font(""), None);
}

// -- Per-font soft-hyphen distinction (sanity check on width data) ------

#[test]
fn carlito_has_no_soft_hyphen_entry() {
    let m = get_font_metrics("Calibri").unwrap();
    assert!(m.width_of('\u{00ad}').is_none());
}

#[test]
fn arimo_has_soft_hyphen_682() {
    // Width data from Liberation Sans, which Arimo is metric-
    // compatible with.
    let m = get_font_metrics("Arial").unwrap();
    assert_eq!(m.width_of('\u{00ad}'), Some(682));
}

#[test]
fn noto_sans_jp_soft_hyphen_347() {
    let m = get_font_metrics("Meiryo").unwrap();
    assert_eq!(m.width_of('\u{00ad}'), Some(347));
}

// -- CJK approximation entries have empty per-character tables ----------

#[test]
fn noto_kr_sc_tc_have_empty_widths_table() {
    // Approximated entries: per-character widths are intentionally
    // empty; CJK glyphs measure via cjk_width=1000, Latin glyphs
    // via default_width=563.
    for name in [
        "Noto Sans KR",
        "Noto Serif KR",
        "Noto Sans SC",
        "Noto Serif SC",
        "Noto Sans TC",
        "Noto Serif TC",
        "Noto Serif JP",
    ] {
        let m = get_font_metrics(name).unwrap_or_else(|| panic!("{name}"));
        assert_eq!(m.widths_len(), 0, "{name} should have empty widths table");
        assert_eq!(m.cjk_width, 1000);
        assert_eq!(m.default_width, 563);
    }
}

// -- T14 (IP-4): widths must be a sorted slice, not HashMap ---------------

#[test]
fn widths_slice_is_sorted_by_char_carlito() {
    // binary_search_by_key requires the slice to be sorted by key.
    let m = get_font_metrics("Calibri").expect("Calibri");
    let slice = m.widths_slice();
    for w in slice.windows(2) {
        assert!(
            w[0].0 <= w[1].0,
            "Carlito widths not sorted: {:?} > {:?}",
            w[0].0,
            w[1].0
        );
    }
}

#[test]
fn widths_slice_is_sorted_by_char_arimo() {
    let m = get_font_metrics("Arial").expect("Arial");
    let slice = m.widths_slice();
    for w in slice.windows(2) {
        assert!(
            w[0].0 <= w[1].0,
            "Arimo widths not sorted: {:?} > {:?}",
            w[0].0,
            w[1].0
        );
    }
}

#[test]
fn widths_slice_is_sorted_by_char_tinos() {
    let m = get_font_metrics("Times New Roman").expect("Times New Roman");
    let slice = m.widths_slice();
    for w in slice.windows(2) {
        assert!(
            w[0].0 <= w[1].0,
            "Tinos widths not sorted: {:?} > {:?}",
            w[0].0,
            w[1].0
        );
    }
}

#[test]
fn widths_slice_is_sorted_by_char_noto_sans_jp() {
    let m = get_font_metrics("Noto Sans JP").expect("Noto Sans JP");
    let slice = m.widths_slice();
    for w in slice.windows(2) {
        assert!(
            w[0].0 <= w[1].0,
            "Noto Sans JP widths not sorted: {:?} > {:?}",
            w[0].0,
            w[1].0
        );
    }
}

#[test]
fn width_of_uses_binary_search() {
    // Verify that width_of returns correct results for known entries
    // and None for entries not in the table — same semantics as
    // the old HashMap.get, but now via binary_search_by_key.
    let m = get_font_metrics("Calibri").expect("Calibri");
    assert_eq!(m.width_of('A'), Some(1185));
    assert_eq!(m.width_of('\u{00ff}'), Some(927));
    // Character beyond Latin-1 range — not in Carlito table.
    assert_eq!(m.width_of('\u{0400}'), None);
}

// -- own tests --------------------------------------------------------------

#[test]
fn width_of_finds_first_and_last_entries() {
    let m = get_font_metrics("Carlito").unwrap();
    let slice = m.widths_slice();
    assert_eq!(m.width_of(slice[0].0), Some(slice[0].1));
    let last = slice[slice.len() - 1];
    assert_eq!(m.width_of(last.0), Some(last.1));
    assert_eq!(m.width_of('\u{1F600}'), None);
    assert_eq!(m.width_of('\u{0}'), None);
}

#[test]
fn full_width_name_resolves_through_mapping() {
    let m = get_font_metrics("ＭＳ Ｐゴシック").expect("full-width name resolves");
    assert_eq!(m.fallback_name, "Noto Sans JP");
}

#[test]
fn resolve_metrics_prefers_primary_font() {
    assert_eq!(
        resolve_metrics(Some("Arial"), Some("Meiryo")).map(|m| m.fallback_name),
        Some("Arimo")
    );
    assert_eq!(
        resolve_metrics(Some("Unknown"), Some("Meiryo")).map(|m| m.fallback_name),
        Some("Noto Sans JP")
    );
    assert_eq!(
        resolve_metrics(None, Some("Batang")).map(|m| m.fallback_name),
        Some("Noto Serif KR")
    );
    assert!(resolve_metrics(None, None).is_none());
    assert!(resolve_metrics(Some("Unknown"), None).is_none());
}

#[test]
fn width_classes() {
    assert_eq!(width_class(0xFF71), WidthClass::Halfwidth);
    assert_eq!(width_class(0x3042), WidthClass::Wide);
    assert_eq!(width_class(0x20), WidthClass::Narrow);
    assert_eq!(width_class('A' as u32), WidthClass::Normal);
}

#[test]
fn char_width_sources() {
    let calibri = get_font_metrics("Calibri");
    let kr = get_font_metrics("Noto Sans KR");
    // table entry
    assert_eq!(
        char_width('A', &calibri, &None, false, false),
        CharWidth::Units { units: 1185, units_per_em: 2048 }
    );
    // CJK without an East-Asian font: the primary font's CJK width
    assert_eq!(
        char_width('あ', &calibri, &None, false, false),
        CharWidth::Units { units: 2048, units_per_em: 2048 }
    );
    // CJK with an East-Asian font: its CJK width
    assert_eq!(
        char_width('あ', &calibri, &kr, false, false),
        CharWidth::Units { units: 1000, units_per_em: 1000 }
    );
    // Latin under a table-less CJK face: heuristic with the primary average
    assert_eq!(
        char_width('A', &kr, &None, true, false),
        CharWidth::Heuristic { class: WidthClass::Normal, average: true }
    );
    assert_eq!(
        char_width(',', &kr, &None, true, false),
        CharWidth::Heuristic { class: WidthClass::Narrow, average: false }
    );
    // no metrics at all
    assert_eq!(
        char_width('あ', &None, &None, true, true),
        CharWidth::Heuristic { class: WidthClass::Wide, average: false }
    );
    // a character missing from the table uses the default width
    assert_eq!(
        char_width('\u{0100}', &calibri, &None, false, false),
        CharWidth::Units { units: 991, units_per_em: 2048 }
    );
}

#[test]
fn open_families_are_their_own_fallback() {
    let mapping = default_font_mapping();
    for name in [
        "Carlito",
        "Arimo",
        "Tinos",
        "Cousine",
        "Caladea",
        "Noto Sans JP",
        "Noto Serif JP",
        "Noto Sans KR",
        "Noto Serif KR",
        "Noto Sans SC",
        "Noto Serif SC",
        "Noto Sans TC",
        "Noto Serif TC",
    ] {
        assert_eq!(get_metrics_fallback_font(name), Some(name));
        let target = get_mapped_font(name, &mapping);
        assert!(target.is_none() || target.as_deref() == Some(name), "{name} maps elsewhere");
    }
}
